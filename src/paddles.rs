use vstd::prelude::*;

use crate::geometry::{clamp_to, div_toward_zero, Vec2, ARENA_HALF, ARENA_SIZE, POS_LIMIT, VEL_LIMIT};
use crate::physics::{body_ok, with_vel_x, Body};

verus! {

/// Paw acceleration: 5 world units per frame for a touch a full arena width away.
pub const PAW_ACCELERATION: i64 = 45000;

/// Paw friction in tenths: each frame a paw loses three tenths of its speed.
pub const PAW_FRICTION: i64 = -3;

/// Squared horizontal distance between a touch and a paw.
pub open spec fn sq_dist(a: int, b: int) -> int {
    (a - b) * (a - b)
}

/// Index of the paw nearest to `x` among the first `n`; on a tie the earlier one.
pub open spec fn nearest_upto(paws: Seq<Body>, x: int, n: int) -> int
    decreases n,
{
    if n <= 1 {
        0
    } else {
        let k = nearest_upto(paws, x, n - 1);
        if sq_dist(x, paws[n - 1].pos.x as int) < sq_dist(x, paws[k].pos.x as int) {
            n - 1
        } else {
            k
        }
    }
}

/// Index of the paw nearest to `x`; on a tie the first one.
pub open spec fn nearest(paws: Seq<Body>, x: int) -> int {
    nearest_upto(paws, x, paws.len() as int)
}

/// Velocity change that a touch at `touch_x` gives a paw at `paw_x`: the
/// direction `(touch_x - paw_x) / arena width`, clamped into [-1/2, 1/2],
/// times the acceleration and 1.5, rounded toward zero.
pub open spec fn paw_push(touch_x: int, paw_x: int) -> int {
    div_toward_zero(
        clamp_to(touch_x - paw_x, -ARENA_HALF as int, ARENA_HALF as int) * PAW_ACCELERATION * 3,
        2 * ARENA_SIZE,
    )
}

/// A paw's horizontal velocity after a push, kept within the velocity limit.
pub open spec fn pushed(paw: Body, touch_x: int) -> Body {
    with_vel_x(
        paw,
        clamp_to(paw.vel.x + paw_push(touch_x, paw.pos.x as int), -VEL_LIMIT as int, VEL_LIMIT as int),
    )
}

/// The paws after one touch has pushed its nearest paw.
pub open spec fn push_nearest(paws: Seq<Body>, touch: Vec2) -> Seq<Body> {
    let k = nearest(paws, touch.x as int);
    paws.update(k, pushed(paws[k], touch.x as int))
}

/// The paws after each touch in turn has pushed its nearest paw.
pub open spec fn touched(paws: Seq<Body>, touches: Seq<Vec2>) -> Seq<Body>
    decreases touches.len(),
{
    if touches.len() == 0 || paws.len() == 0 {
        paws
    } else {
        push_nearest(touched(paws, touches.drop_last()), touches.last())
    }
}

/// A horizontal velocity after one frame of friction, rounded toward zero.
pub open spec fn decayed(v: int) -> int {
    v + div_toward_zero(v * PAW_FRICTION, 10)
}

/// A paw pulled back inside the arena horizontally.
pub open spec fn clamped(paw: Body) -> Body {
    Body { pos: Vec2 { x: clamp_to(paw.pos.x as int, -ARENA_HALF as int, ARENA_HALF as int) as i64, y: paw.pos.y }, ..paw }
}

pub open spec fn paws_ok(paws: Seq<Body>) -> bool {
    forall|i: int| 0 <= i < paws.len() ==> body_ok(#[trigger] paws[i])
}

/// The nearest paw is no farther than any other, and strictly nearer than
/// every paw before it.
pub proof fn lemma_nearest_is_closest(paws: Seq<Body>, x: int, n: int)
    requires
        1 <= n <= paws.len(),
    ensures
        0 <= nearest_upto(paws, x, n) < n,
        forall|j: int|
            0 <= j < n ==> sq_dist(x, paws[nearest_upto(paws, x, n)].pos.x as int) <= sq_dist(
                x,
                #[trigger] paws[j].pos.x as int,
            ),
        forall|j: int|
            0 <= j < nearest_upto(paws, x, n) ==> sq_dist(x, #[trigger] paws[j].pos.x as int)
                > sq_dist(x, paws[nearest_upto(paws, x, n)].pos.x as int),
    decreases n,
{
    if n > 1 {
        lemma_nearest_is_closest(paws, x, n - 1);
    }
}

/// Touches change only the paws' horizontal velocities, within the limit.
pub proof fn lemma_touched_keeps(paws: Seq<Body>, touches: Seq<Vec2>)
    requires
        paws_ok(paws),
    ensures
        touched(paws, touches).len() == paws.len(),
        paws_ok(touched(paws, touches)),
        forall|j: int|
            0 <= j < paws.len() ==> (#[trigger] touched(paws, touches)[j]).pos == paws[j].pos
                && touched(paws, touches)[j].size == paws[j].size
                && touched(paws, touches)[j].vel.y == paws[j].vel.y,
    decreases touches.len(),
{
    if touches.len() > 0 && paws.len() > 0 {
        let prev = touched(paws, touches.drop_last());
        lemma_touched_keeps(paws, touches.drop_last());
        lemma_nearest_is_closest(prev, touches.last().x as int, prev.len() as int);
    }
}

fn square(d: i128) -> (r: i128)
    requires
        -0x8004_0000_0000_0000 <= d <= 0x8004_0000_0000_0000,
    ensures
        r == d * d,
{
    proof {
        assert(d * d <= 0x8004_0000_0000_0000 * 0x8004_0000_0000_0000) by (nonlinear_arith)
            requires
                -0x8004_0000_0000_0000 <= d <= 0x8004_0000_0000_0000,
        ;
        assert(0 <= d * d) by (nonlinear_arith);
    }
    d * d
}

/// Index of the paw whose horizontal position is nearest to `x` (by squared
/// distance); on a tie the first one.
pub fn nearest_paw(paws: &Vec<Body>, x: i64) -> (r: usize)
    requires
        paws@.len() > 0,
        paws_ok(paws@),
    ensures
        r == nearest(paws@, x as int),
        r < paws@.len(),
        forall|j: int|
            0 <= j < paws@.len() ==> sq_dist(x as int, paws@[r as int].pos.x as int) <= sq_dist(
                x as int,
                #[trigger] paws@[j].pos.x as int,
            ),
        forall|j: int|
            0 <= j < r ==> sq_dist(x as int, #[trigger] paws@[j].pos.x as int) > sq_dist(
                x as int,
                paws@[r as int].pos.x as int,
            ),
{
    let mut best: usize = 0;
    let mut best_d = square(x as i128 - paws[0].pos.x as i128);
    let mut i: usize = 1;
    while i < paws.len()
        invariant
            1 <= i <= paws@.len(),
            paws_ok(paws@),
            best as int == nearest_upto(paws@, x as int, i as int),
            best < paws@.len(),
            best_d == sq_dist(x as int, paws@[best as int].pos.x as int),
        decreases paws@.len() - i,
    {
        let d = square(x as i128 - paws[i].pos.x as i128);
        if d < best_d {
            best = i;
            best_d = d;
        }
        i = i + 1;
    }
    proof {
        lemma_nearest_is_closest(paws@, x as int, paws@.len() as int);
    }
    best
}

fn push_for(touch_x: i64, paw_x: i64) -> (r: i64)
    requires
        -POS_LIMIT <= paw_x <= POS_LIMIT,
    ensures
        r == paw_push(touch_x as int, paw_x as int),
        -33750 <= r <= 33750,
{
    let diff = touch_x as i128 - paw_x as i128;
    let dx: i64 = if diff < -(ARENA_HALF as i128) {
        -ARENA_HALF
    } else if diff > ARENA_HALF as i128 {
        ARENA_HALF
    } else {
        diff as i64
    };
    let scaled = dx * PAW_ACCELERATION * 3;
    if scaled >= 0 {
        scaled / (2 * ARENA_SIZE)
    } else {
        -((-scaled) / (2 * ARENA_SIZE))
    }
}

/// Each touch in turn pushes the paw nearest to it; pushes add up.
pub fn move_paws(paws: &mut Vec<Body>, touches: &Vec<Vec2>)
    requires
        paws_ok(old(paws)@),
    ensures
        final(paws)@ == touched(old(paws)@, touches@),
        paws_ok(final(paws)@),
{
    let ghost p0 = paws@;
    proof {
        lemma_touched_keeps(p0, touches@);
    }
    if paws.len() == 0 {
        return;
    }
    let mut i: usize = 0;
    while i < touches.len()
        invariant
            0 <= i <= touches@.len(),
            paws_ok(p0),
            p0.len() > 0,
            paws@ == touched(p0, touches@.take(i as int)),
            paws_ok(paws@),
            paws@.len() == p0.len(),
        decreases touches@.len() - i,
    {
        let t = touches[i];
        proof {
            assert(touches@.take(i + 1).drop_last() =~= touches@.take(i as int));
            assert(touches@.take(i + 1).last() == t);
        }
        let k = nearest_paw(paws, t.x);
        let mut p = paws[k];
        let v = p.vel.x + push_for(t.x, p.pos.x);
        p.vel.x = if v < -VEL_LIMIT {
            -VEL_LIMIT
        } else if v > VEL_LIMIT {
            VEL_LIMIT
        } else {
            v
        };
        paws.set(k, p);
        i = i + 1;
        proof {
            lemma_touched_keeps(p0, touches@.take(i as int));
        }
    }
    assert(touches@.take(touches@.len() as int) =~= touches@);
}

/// Applies one frame of friction to every paw.
pub fn paw_friction(paws: &mut Vec<Body>)
    requires
        paws_ok(old(paws)@),
    ensures
        final(paws)@.len() == old(paws)@.len(),
        forall|i: int|
            0 <= i < old(paws)@.len() ==> #[trigger] final(paws)@[i] == with_vel_x(
                old(paws)@[i],
                decayed(old(paws)@[i].vel.x as int),
            ),
        paws_ok(final(paws)@),
{
    let mut out: Vec<Body> = Vec::new();
    let mut i: usize = 0;
    while i < paws.len()
        invariant
            0 <= i <= paws@.len(),
            paws_ok(paws@),
            out@.len() == i,
            forall|j: int|
                0 <= j < i ==> #[trigger] out@[j] == with_vel_x(paws@[j], decayed(paws@[j].vel.x as int)),
            paws_ok(out@),
        decreases paws@.len() - i,
    {
        let mut p = paws[i];
        let v = p.vel.x;
        p.vel.x = if v >= 0 {
            v - (v * 3) / 10
        } else {
            v + (-v * 3) / 10
        };
        out.push(p);
        i = i + 1;
    }
    *paws = out;
}

/// Pulls every paw back inside the arena horizontally.
pub fn clamp_paw_movement(paws: &mut Vec<Body>)
    ensures
        final(paws)@.len() == old(paws)@.len(),
        forall|i: int| 0 <= i < old(paws)@.len() ==> #[trigger] final(paws)@[i] == clamped(old(paws)@[i]),
        forall|i: int|
            0 <= i < old(paws)@.len() ==> -ARENA_HALF <= (#[trigger] final(paws)@[i]).pos.x <= ARENA_HALF,
{
    let mut out: Vec<Body> = Vec::new();
    let mut i: usize = 0;
    while i < paws.len()
        invariant
            0 <= i <= paws@.len(),
            out@.len() == i,
            forall|j: int| 0 <= j < i ==> #[trigger] out@[j] == clamped(paws@[j]),
        decreases paws@.len() - i,
    {
        let mut p = paws[i];
        if p.pos.x < -ARENA_HALF {
            p.pos.x = -ARENA_HALF;
        } else if p.pos.x > ARENA_HALF {
            p.pos.x = ARENA_HALF;
        }
        out.push(p);
        i = i + 1;
    }
    *paws = out;
}

} // verus!
