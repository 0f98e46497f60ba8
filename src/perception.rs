//! What each agent perceives in a tick, as reported by the physics engine,
//! and the neighbour sets the behaviours read from it.
use crate::boids::{all_valid, Behaviour, Boid};
use crate::vector::{abs, div_toward_zero, vec2, Vec2, COORD_LIMIT};
use vstd::prelude::*;

verus! {

/// What the perception region of one agent overlaps this tick: the agents
/// (by index) and whether any obstacle is among the overlapping entities.
#[derive(Debug)]
pub struct BoidVisionQuery {
    pub colliding: Vec<usize>,
    pub sees_obstacle: bool,
}

/// Every index names one of `n` agents.
pub open spec fn ids_valid(ids: Seq<usize>, n: int) -> bool {
    forall|k: int| 0 <= k < ids.len() ==> #[trigger] ids[k] < n
}

/// One report per agent, each naming only existing agents.
pub open spec fn perception_valid(p: Seq<BoidVisionQuery>, n: int) -> bool {
    &&& p.len() == n
    &&& forall|k: int| 0 <= k < n ==> ids_valid(#[trigger] p[k].colliding@, n)
}

/// The positions (or, with `velocities`, the velocities) of the agents among
/// `ids` that carry `tag`, in the order of `ids`.
pub open spec fn tagged_values(
    boids: Seq<Boid>,
    ids: Seq<usize>,
    tag: Behaviour,
    velocities: bool,
) -> Seq<Vec2>
    decreases ids.len(),
{
    if ids.len() == 0 {
        seq![]
    } else {
        let rest = tagged_values(boids, ids.drop_last(), tag, velocities);
        let b = boids[ids.last() as int];
        if b.tags.has(tag) {
            rest.push(
                if velocities {
                    b.vel
                } else {
                    b.pos
                },
            )
        } else {
            rest
        }
    }
}

/// Every vector of `vs` lies within `COORD_LIMIT`.
pub open spec fn all_within(vs: Seq<Vec2>) -> bool {
    forall|k: int| 0 <= k < vs.len() ==> (#[trigger] vs[k]).within(COORD_LIMIT as int)
}

/// The positions or velocities of the perceived agents that carry `tag`.
pub fn collect_tagged(boids: &Vec<Boid>, ids: &Vec<usize>, tag: Behaviour, velocities: bool) -> (r:
    Vec<Vec2>)
    requires
        ids_valid(ids@, boids@.len() as int),
        all_valid(boids@),
    ensures
        r@ == tagged_values(boids@, ids@, tag, velocities),
        all_within(r@),
{
    let mut r: Vec<Vec2> = Vec::new();
    let mut k: usize = 0;
    while k < ids.len()
        invariant
            0 <= k <= ids@.len(),
            ids_valid(ids@, boids@.len() as int),
            all_valid(boids@),
            r@ == tagged_values(boids@, ids@.take(k as int), tag, velocities),
            all_within(r@),
        decreases ids@.len() - k,
    {
        let id = ids[k];
        assert(ids@[k as int] < boids@.len());
        let b = boids[id];
        assert(boids@[id as int].valid());
        assert(ids@.take(k as int + 1).drop_last() =~= ids@.take(k as int));
        if b.tags.has(tag) {
            r.push(
                if velocities {
                    b.vel
                } else {
                    b.pos
                },
            );
        }
        k += 1;
    }
    assert(ids@.take(ids@.len() as int) =~= ids@);
    r
}

pub open spec fn sum_x(vs: Seq<Vec2>) -> int
    decreases vs.len(),
{
    if vs.len() == 0 {
        0
    } else {
        sum_x(vs.drop_last()) + vs.last().x
    }
}

pub open spec fn sum_y(vs: Seq<Vec2>) -> int
    decreases vs.len(),
{
    if vs.len() == 0 {
        0
    } else {
        sum_y(vs.drop_last()) + vs.last().y
    }
}

/// The arithmetic mean, each component rounded toward zero.
pub open spec fn mean_of(vs: Seq<Vec2>) -> Vec2 {
    vec2(div_toward_zero(sum_x(vs), vs.len() as int), div_toward_zero(sum_y(vs), vs.len() as int))
}

proof fn lemma_mean_component_bound(s: int, n: int)
    requires
        0 < n,
        abs(s) <= n * COORD_LIMIT,
    ensures
        abs(div_toward_zero(s, n)) <= COORD_LIMIT,
{
    let a = abs(s);
    assert(a / n <= COORD_LIMIT) by (nonlinear_arith)
        requires
            0 <= a <= n * COORD_LIMIT,
            0 < n,
    ;
    assert(a / n >= 0) by (nonlinear_arith)
        requires
            0 <= a,
            0 < n,
    ;
}

fn div_toward_zero_i128(s: i128, n: i128) -> (r: i64)
    requires
        0 < n,
        abs(s as int) <= n * COORD_LIMIT,
        n <= 0x1_0000_0000_0000_0000,
    ensures
        r == div_toward_zero(s as int, n as int),
{
    proof {
        lemma_mean_component_bound(s as int, n as int);
    }
    if s < 0 {
        (-((-s) / n)) as i64
    } else {
        (s / n) as i64
    }
}

/// The arithmetic mean of a non-empty sequence of vectors.
pub fn mean(vs: &Vec<Vec2>) -> (r: Vec2)
    requires
        vs@.len() > 0,
        all_within(vs@),
    ensures
        r == mean_of(vs@),
        r.within(COORD_LIMIT as int),
{
    let mut sx: i128 = 0;
    let mut sy: i128 = 0;
    let mut k: usize = 0;
    while k < vs.len()
        invariant
            0 <= k <= vs@.len(),
            all_within(vs@),
            sx == sum_x(vs@.take(k as int)),
            sy == sum_y(vs@.take(k as int)),
            abs(sx as int) <= k * COORD_LIMIT,
            abs(sy as int) <= k * COORD_LIMIT,
        decreases vs@.len() - k,
    {
        let v = vs[k];
        assert(vs@[k as int].within(COORD_LIMIT as int));
        assert(vs@.take(k as int + 1).drop_last() =~= vs@.take(k as int));
        sx = sx + v.x as i128;
        sy = sy + v.y as i128;
        k += 1;
    }
    assert(vs@.take(vs@.len() as int) =~= vs@);
    let n = vs.len() as i128;
    let x = div_toward_zero_i128(sx, n);
    let y = div_toward_zero_i128(sy, n);
    proof {
        lemma_mean_component_bound(sx as int, n as int);
        lemma_mean_component_bound(sy as int, n as int);
    }
    Vec2 { x, y }
}

} // verus!
