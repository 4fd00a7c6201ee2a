use vstd::prelude::*;

use crate::geometry::{
    hit_box, hit_rect, intersects, overlap, rect_fits, Vec2, ARENA_HALF, ARENA_SIZE, POS_LIMIT,
    VEL_LIMIT,
};

verus! {

/// Ball speed at score zero: 0.2 world units per frame.
pub const BASE_BALL_SPEED: i64 = 1800;

/// Every this many points the ball speed grows by another base speed.
pub const SPEED_UP_SCORE: i64 = 30;

/// A moving box: a ball or a paw.
#[derive(Clone, Copy, Debug, PartialEq, Eq, Structural)]
pub struct Body {
    pub pos: Vec2,
    pub size: Vec2,
    pub vel: Vec2,
}

/// The ranges in which a body's fields stay between frames.
pub open spec fn body_ok(b: Body) -> bool {
    &&& -POS_LIMIT <= b.pos.x <= POS_LIMIT
    &&& -POS_LIMIT <= b.pos.y <= POS_LIMIT
    &&& 0 <= b.size.x <= ARENA_SIZE
    &&& 0 <= b.size.y <= ARENA_SIZE
    &&& -VEL_LIMIT <= b.vel.x <= VEL_LIMIT
    &&& -VEL_LIMIT <= b.vel.y <= VEL_LIMIT
}

/// The score after one more point; the counter stops at its largest value.
pub open spec fn bump(s: u32) -> u32 {
    if s < u32::MAX { (s + 1) as u32 } else { s }
}

/// Speed of a ball after a scoring bounce: `base * (1 + score / 30)`.
pub open spec fn ball_speed(score: u32) -> int {
    BASE_BALL_SPEED * (SPEED_UP_SCORE + score) / (SPEED_UP_SCORE as int)
}

pub open spec fn with_vel_x(b: Body, vx: int) -> Body {
    Body { vel: Vec2 { x: vx as i64, y: b.vel.y }, ..b }
}

pub open spec fn with_vel_y(b: Body, vy: int) -> Body {
    Body { vel: Vec2 { x: b.vel.x, y: vy as i64 }, ..b }
}

/// The ball's right edge is past the right wall while it moves right.
pub open spec fn hits_right(b: Body) -> bool {
    b.pos.x + b.size.x / 2 > ARENA_HALF && b.vel.x > 0
}

/// The ball's left edge is past the left wall while it moves left.
pub open spec fn hits_left(b: Body) -> bool {
    b.pos.x - b.size.x / 2 < -ARENA_HALF && b.vel.x < 0
}

/// The ball's top edge is past the top wall while it moves up.
pub open spec fn hits_top(b: Body) -> bool {
    b.pos.y + b.size.y / 2 > ARENA_HALF && b.vel.y > 0
}

pub open spec fn bounce_right(b: Body, s: u32) -> (Body, u32) {
    if hits_right(b) { (with_vel_x(b, -ball_speed(bump(s))), bump(s)) } else { (b, s) }
}

pub open spec fn bounce_left(b: Body, s: u32) -> (Body, u32) {
    if hits_left(b) { (with_vel_x(b, ball_speed(bump(s))), bump(s)) } else { (b, s) }
}

pub open spec fn bounce_top(b: Body, s: u32) -> (Body, u32) {
    if hits_top(b) { (with_vel_y(b, -ball_speed(bump(s))), bump(s)) } else { (b, s) }
}

/// One ball against the right, left and top walls, checked in that order.
/// There is no bottom wall.
pub open spec fn wall_bounce(b: Body, s: u32) -> (Body, u32) {
    let (b1, s1) = bounce_right(b, s);
    let (b2, s2) = bounce_left(b1, s1);
    bounce_top(b2, s2)
}

/// The first `n` balls after their wall bounces, with the score they leave.
pub open spec fn walls_upto(balls: Seq<Body>, s: u32, n: int) -> (Seq<Body>, u32)
    decreases n,
{
    if n <= 0 {
        (Seq::empty(), s)
    } else {
        let (done, s1) = walls_upto(balls, s, n - 1);
        let (b, s2) = wall_bounce(balls[n - 1], s1);
        (done.push(b), s2)
    }
}

/// A body moved by its velocity for one frame (fixed time step).
pub open spec fn moved(b: Body) -> Body {
    Body { pos: Vec2 { x: (b.pos.x + b.vel.x) as i64, y: (b.pos.y + b.vel.y) as i64 }, ..b }
}

/// The ball's and the paw's hit boxes overlap.
pub open spec fn touches_paw(ball: Body, paw: Body) -> bool {
    overlap(hit_rect(ball.pos, ball.size), hit_rect(paw.pos, paw.size))
}

/// A falling ball that meets a paw is sent straight up, and scores.
pub open spec fn bounce_paw(ball: Body, s: u32, paw: Body) -> (Body, u32) {
    if touches_paw(ball, paw) && ball.vel.y < 0 {
        (with_vel_y(ball, ball_speed(bump(s))), bump(s))
    } else {
        (ball, s)
    }
}

/// One ball checked against the first `n` paws in order.
pub open spec fn paws_upto(ball: Body, s: u32, paws: Seq<Body>, n: int) -> (Body, u32)
    decreases n,
{
    if n <= 0 {
        (ball, s)
    } else {
        let (b1, s1) = paws_upto(ball, s, paws, n - 1);
        bounce_paw(b1, s1, paws[n - 1])
    }
}

/// The first `n` balls after their paw bounces, with the score they leave.
pub open spec fn balls_paws_upto(balls: Seq<Body>, s: u32, paws: Seq<Body>, n: int) -> (
    Seq<Body>,
    u32,
)
    decreases n,
{
    if n <= 0 {
        (Seq::empty(), s)
    } else {
        let (done, s1) = balls_paws_upto(balls, s, paws, n - 1);
        let (b, s2) = paws_upto(balls[n - 1], s1, paws, paws.len() as int);
        (done.push(b), s2)
    }
}

/// The ball's top edge is below the arena's bottom edge by more than a ball height.
pub open spec fn fallen(b: Body) -> bool {
    b.pos.y + b.size.y / 2 < -ARENA_HALF - b.size.y
}

/// The balls that have not fallen out, in their order.
pub open spec fn kept(balls: Seq<Body>) -> Seq<Body>
    decreases balls.len(),
{
    if balls.len() == 0 {
        balls
    } else {
        let rest = kept(balls.drop_last());
        if fallen(balls.last()) { rest } else { rest.push(balls.last()) }
    }
}

/// Ball speed after a scoring bounce at the given score.
pub fn calc_ball_velocity(score: u32) -> (r: i64)
    ensures
        r == ball_speed(score),
        0 < r <= VEL_LIMIT / 2,
{
    let r = (BASE_BALL_SPEED / SPEED_UP_SCORE) * (SPEED_UP_SCORE + score as i64);
    assert(r == ball_speed(score));
    r
}

fn add_point(score: &mut u32)
    ensures
        *final(score) == bump(*old(score)),
{
    if *score < u32::MAX {
        *score = *score + 1;
    }
}

/// Bounces one ball off the walls, scoring a point for each bounce.
pub fn bounce_off_walls(ball: &mut Body, score: &mut u32)
    requires
        body_ok(*old(ball)),
    ensures
        (*final(ball), *final(score)) == wall_bounce(*old(ball), *old(score)),
{
    let hx = ball.size.x / 2;
    let hy = ball.size.y / 2;
    if ball.pos.x + hx > ARENA_HALF && ball.vel.x > 0 {
        add_point(score);
        ball.vel.x = -calc_ball_velocity(*score);
    }
    if ball.pos.x - hx < -ARENA_HALF && ball.vel.x < 0 {
        add_point(score);
        ball.vel.x = calc_ball_velocity(*score);
    }
    if ball.pos.y + hy > ARENA_HALF && ball.vel.y > 0 {
        add_point(score);
        ball.vel.y = -calc_ball_velocity(*score);
    }
}

/// Bounces every ball off the walls, in order, scoring as it goes.
pub fn bounce_balls_off_walls(balls: &mut Vec<Body>, score: &mut u32)
    requires
        forall|i: int| 0 <= i < old(balls)@.len() ==> body_ok(#[trigger] old(balls)@[i]),
    ensures
        (final(balls)@, *final(score)) == walls_upto(old(balls)@, *old(score), old(balls)@.len() as int),
{
    let ghost s0 = *score;
    let mut out: Vec<Body> = Vec::new();
    let mut i: usize = 0;
    while i < balls.len()
        invariant
            0 <= i <= balls@.len(),
            forall|j: int| 0 <= j < balls@.len() ==> body_ok(#[trigger] balls@[j]),
            (out@, *score) == walls_upto(balls@, s0, i as int),
        decreases balls@.len() - i,
    {
        let mut b = balls[i];
        bounce_off_walls(&mut b, score);
        out.push(b);
        i = i + 1;
    }
    *balls = out;
}

/// Moves a body by its velocity for one frame.
pub fn apply_velocity(b: &mut Body)
    requires
        i64::MIN <= old(b).pos.x + old(b).vel.x <= i64::MAX,
        i64::MIN <= old(b).pos.y + old(b).vel.y <= i64::MAX,
    ensures
        *final(b) == moved(*old(b)),
{
    b.pos.x = b.pos.x + b.vel.x;
    b.pos.y = b.pos.y + b.vel.y;
}

/// Moves every body by its velocity for one frame.
pub fn apply_velocities(bodies: &mut Vec<Body>)
    requires
        forall|i: int| 0 <= i < old(bodies)@.len() ==> body_ok(#[trigger] old(bodies)@[i]),
    ensures
        final(bodies)@.len() == old(bodies)@.len(),
        forall|i: int|
            0 <= i < old(bodies)@.len() ==> #[trigger] final(bodies)@[i] == moved(old(bodies)@[i]),
{
    let mut out: Vec<Body> = Vec::new();
    let mut i: usize = 0;
    while i < bodies.len()
        invariant
            0 <= i <= bodies@.len(),
            forall|j: int| 0 <= j < bodies@.len() ==> body_ok(#[trigger] bodies@[j]),
            out@.len() == i,
            forall|j: int| 0 <= j < i ==> #[trigger] out@[j] == moved(bodies@[j]),
        decreases bodies@.len() - i,
    {
        let mut b = bodies[i];
        apply_velocity(&mut b);
        out.push(b);
        i = i + 1;
    }
    *bodies = out;
}

/// The position and size of a body, as far as `hit_rect` needs them, fit.
pub open spec fn box_fits(b: Body) -> bool {
    rect_fits(b.pos, b.size)
}

/// Bouncing off paws changes only a ball's vertical velocity, to the ball
/// speed at some score, and never lowers the score.
pub proof fn lemma_paws_upto_keeps_box(ball: Body, s: u32, paws: Seq<Body>, n: int)
    ensures
        paws_upto(ball, s, paws, n).0.pos == ball.pos,
        paws_upto(ball, s, paws, n).0.size == ball.size,
        paws_upto(ball, s, paws, n).0.vel.x == ball.vel.x,
        paws_upto(ball, s, paws, n).0.vel.y == ball.vel.y || 0 < paws_upto(ball, s, paws, n).0.vel.y
            <= VEL_LIMIT / 2,
        paws_upto(ball, s, paws, n).1 >= s,
    decreases n,
{
    if n > 0 {
        lemma_paws_upto_keeps_box(ball, s, paws, n - 1);
        let (b1, s1) = paws_upto(ball, s, paws, n - 1);
        lemma_speed_bounds(bump(s1));
    }
}

/// Checks one ball against each paw in order: a falling ball whose hit box
/// meets a paw's is sent up at the current ball speed, and scores.
pub fn bounce_ball_off_paws(ball: &mut Body, paws: &Vec<Body>, score: &mut u32)
    requires
        box_fits(*old(ball)),
        forall|i: int| 0 <= i < paws@.len() ==> box_fits(#[trigger] paws@[i]),
    ensures
        (*final(ball), *final(score)) == paws_upto(*old(ball), *old(score), paws@, paws@.len() as int),
{
    let ghost b0 = *ball;
    let ghost s0 = *score;
    let ball_box = hit_box(ball.pos, ball.size);
    let mut i: usize = 0;
    while i < paws.len()
        invariant
            0 <= i <= paws@.len(),
            box_fits(b0),
            forall|j: int| 0 <= j < paws@.len() ==> box_fits(#[trigger] paws@[j]),
            ball_box == hit_rect(b0.pos, b0.size),
            (*ball, *score) == paws_upto(b0, s0, paws@, i as int),
        decreases paws@.len() - i,
    {
        proof {
            lemma_paws_upto_keeps_box(b0, s0, paws@, i as int);
        }
        let paw = &paws[i];
        let paw_box = hit_box(paw.pos, paw.size);
        if intersects(&ball_box, &paw_box) && ball.vel.y < 0 {
            add_point(score);
            ball.vel.y = calc_ball_velocity(*score);
        }
        i = i + 1;
    }
}

/// Checks every ball against the paws, in order, scoring as it goes.
pub fn bounce_balls_off_paws(balls: &mut Vec<Body>, paws: &Vec<Body>, score: &mut u32)
    requires
        forall|i: int| 0 <= i < old(balls)@.len() ==> box_fits(#[trigger] old(balls)@[i]),
        forall|i: int| 0 <= i < paws@.len() ==> box_fits(#[trigger] paws@[i]),
    ensures
        (final(balls)@, *final(score)) == balls_paws_upto(
            old(balls)@,
            *old(score),
            paws@,
            old(balls)@.len() as int,
        ),
{
    let ghost s0 = *score;
    let mut out: Vec<Body> = Vec::new();
    let mut i: usize = 0;
    while i < balls.len()
        invariant
            0 <= i <= balls@.len(),
            forall|j: int| 0 <= j < balls@.len() ==> box_fits(#[trigger] balls@[j]),
            forall|j: int| 0 <= j < paws@.len() ==> box_fits(#[trigger] paws@[j]),
            (out@, *score) == balls_paws_upto(balls@, s0, paws@, i as int),
        decreases balls@.len() - i,
    {
        let mut b = balls[i];
        bounce_ball_off_paws(&mut b, paws, score);
        out.push(b);
        i = i + 1;
    }
    *balls = out;
}

/// Whether the ball has fallen out below the arena.
pub fn has_fallen(b: &Body) -> (r: bool)
    requires
        box_fits(*b),
    ensures
        r == fallen(*b),
{
    b.pos.y + b.size.y / 2 < -ARENA_HALF - b.size.y
}

/// Removes the balls that have fallen out, keeping the order of the rest.
pub fn despawn_fallen(balls: &mut Vec<Body>)
    requires
        forall|i: int| 0 <= i < old(balls)@.len() ==> box_fits(#[trigger] old(balls)@[i]),
    ensures
        final(balls)@ == kept(old(balls)@),
{
    let mut out: Vec<Body> = Vec::new();
    let mut i: usize = 0;
    while i < balls.len()
        invariant
            0 <= i <= balls@.len(),
            forall|j: int| 0 <= j < balls@.len() ==> box_fits(#[trigger] balls@[j]),
            out@ == kept(balls@.take(i as int)),
        decreases balls@.len() - i,
    {
        let b = balls[i];
        proof {
            assert(balls@.take(i + 1).drop_last() =~= balls@.take(i as int));
        }
        if !has_fallen(&b) {
            out.push(b);
        }
        i = i + 1;
    }
    assert(balls@.take(balls@.len() as int) =~= balls@);
    *balls = out;
}

/// A wall bounce reverses the velocity on the axis of the wall that was hit
/// and sets its magnitude to the ball speed at the score just after that
/// bounce's point; an axis whose wall was not hit keeps its velocity.
pub proof fn lemma_wall_bounce_reflects(b: Body, s: u32)
    requires
        body_ok(b),
    ensures
        ({
            let (r, s2) = wall_bounce(b, s);
            &&& hits_right(b) ==> r.vel.x < 0 && r.vel.x == -ball_speed(bump(s))
            &&& hits_left(b) ==> r.vel.x > 0 && r.vel.x == ball_speed(bump(s))
            &&& !hits_right(b) && !hits_left(b) ==> r.vel.x == b.vel.x
            &&& hits_top(b) ==> r.vel.y < 0 && r.vel.y == -ball_speed(s2) && s2 == bump(
                bounce_left(bounce_right(b, s).0, bounce_right(b, s).1).1,
            )
            &&& !hits_top(b) ==> r.vel.y == b.vel.y
            &&& r.pos == b.pos && r.size == b.size
        }),
{
}

/// Ball speeds are positive and far inside the velocity limit.
pub proof fn lemma_speed_bounds(s: u32)
    ensures
        0 < ball_speed(s) <= VEL_LIMIT / 2,
{
    assert(ball_speed(s) == 60 * (30 + s));
}

/// A ball within range whose velocity points back into the arena on each
/// axis where it sticks out past a wall.
pub open spec fn aimed(b: Body) -> bool {
    &&& body_ok(b)
    &&& b.pos.x + b.size.x / 2 > ARENA_HALF ==> b.vel.x <= 0
    &&& b.pos.x - b.size.x / 2 < -ARENA_HALF ==> b.vel.x >= 0
    &&& b.pos.y + b.size.y / 2 > ARENA_HALF ==> b.vel.y <= 0
}

/// A ball in range after one frame of movement: it may have sunk below the
/// range, which only a ball that has fallen out does.
pub open spec fn in_flight(b: Body) -> bool {
    &&& -POS_LIMIT <= b.pos.x <= POS_LIMIT
    &&& -POS_LIMIT - VEL_LIMIT <= b.pos.y <= POS_LIMIT
    &&& 0 <= b.size.x <= ARENA_SIZE
    &&& 0 <= b.size.y <= ARENA_SIZE
    &&& -VEL_LIMIT <= b.vel.x <= VEL_LIMIT
    &&& -VEL_LIMIT <= b.vel.y <= VEL_LIMIT
}

pub proof fn lemma_wall_aimed(b: Body, s: u32)
    requires
        body_ok(b),
    ensures
        aimed(wall_bounce(b, s).0),
        wall_bounce(b, s).0.pos == b.pos,
        wall_bounce(b, s).0.size == b.size,
        wall_bounce(b, s).1 >= s,
{
    lemma_speed_bounds(bump(s));
    lemma_speed_bounds(bump(bump(s)));
    lemma_speed_bounds(bump(bump(bump(s))));
}

pub proof fn lemma_walls_upto(balls: Seq<Body>, s: u32, n: int)
    requires
        0 <= n <= balls.len(),
        forall|i: int| 0 <= i < balls.len() ==> body_ok(#[trigger] balls[i]),
    ensures
        walls_upto(balls, s, n).0.len() == n,
        forall|i: int|
            0 <= i < n ==> aimed(#[trigger] walls_upto(balls, s, n).0[i]) && walls_upto(
                balls,
                s,
                n,
            ).0[i].pos == balls[i].pos && walls_upto(balls, s, n).0[i].size == balls[i].size,
        walls_upto(balls, s, n).1 >= s,
    decreases n,
{
    if n > 0 {
        lemma_walls_upto(balls, s, n - 1);
        let (done, s1) = walls_upto(balls, s, n - 1);
        lemma_wall_aimed(balls[n - 1], s1);
        let r = walls_upto(balls, s, n).0;
        assert forall|i: int| 0 <= i < n - 1 implies r[i] == done[i] by {}
    }
}

pub proof fn lemma_moved_aimed(b: Body)
    requires
        aimed(b),
    ensures
        in_flight(moved(b)),
        moved(b).vel == b.vel,
        moved(b).size == b.size,
{
}

pub proof fn lemma_balls_paws_upto(balls: Seq<Body>, s: u32, paws: Seq<Body>, n: int)
    requires
        0 <= n <= balls.len(),
    ensures
        balls_paws_upto(balls, s, paws, n).0.len() == n,
        forall|i: int|
            0 <= i < n ==> {
                let r = #[trigger] balls_paws_upto(balls, s, paws, n).0[i];
                &&& r.pos == balls[i].pos
                &&& r.size == balls[i].size
                &&& r.vel.x == balls[i].vel.x
                &&& (r.vel.y == balls[i].vel.y || 0 < r.vel.y <= VEL_LIMIT / 2)
            },
        balls_paws_upto(balls, s, paws, n).1 >= s,
    decreases n,
{
    if n > 0 {
        lemma_balls_paws_upto(balls, s, paws, n - 1);
        let (done, s1) = balls_paws_upto(balls, s, paws, n - 1);
        lemma_paws_upto_keeps_box(balls[n - 1], s1, paws, paws.len() as int);
        let r = balls_paws_upto(balls, s, paws, n).0;
        assert forall|i: int| 0 <= i < n - 1 implies r[i] == done[i] by {}
    }
}

/// The balls that have not fallen out are back within range.
pub proof fn lemma_kept_ok(balls: Seq<Body>)
    requires
        forall|i: int| 0 <= i < balls.len() ==> in_flight(#[trigger] balls[i]),
    ensures
        forall|j: int| 0 <= j < kept(balls).len() ==> body_ok(#[trigger] kept(balls)[j]),
        kept(balls).len() <= balls.len(),
    decreases balls.len(),
{
    if balls.len() > 0 {
        let rest = balls.drop_last();
        assert forall|i: int| 0 <= i < rest.len() implies in_flight(#[trigger] rest[i]) by {
            assert(rest[i] == balls[i]);
        }
        lemma_kept_ok(rest);
        assert(in_flight(balls[balls.len() - 1]));
    }
}

} // verus!
