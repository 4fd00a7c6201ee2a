use vstd::prelude::*;

use crate::geometry::{Vec2, ARENA_HALF};
use crate::paddles::{
    clamp_paw_movement, clamped, decayed, lemma_touched_keeps, move_paws, paw_friction, paws_ok,
    touched,
};
use crate::physics::{
    apply_velocities, balls_paws_upto, body_ok, bounce_balls_off_paws, bounce_balls_off_walls,
    despawn_fallen, in_flight, kept, lemma_balls_paws_upto, lemma_kept_ok, lemma_moved_aimed,
    lemma_walls_upto, moved, walls_upto, with_vel_x, Body, BASE_BALL_SPEED,
};
use crate::screens::{
    splash_after, splash_fires, tick_blink, tick_splash, title_size, zoom, GameState, BLINK_MS,
    SPLASH_MS,
};

verus! {

/// Width and height of a ball (10 world units).
pub const BALL_SIZE: i64 = 90000;

/// Width of a paw (20/1.5 world units).
pub const PAW_WIDTH: i64 = 120000;

/// Height of a paw (30/1.5 world units).
pub const PAW_HEIGHT: i64 = 180000;

/// Horizontal distance of each paw's starting place from the centre.
pub const PAW_START_X: i64 = 225000;

/// Height of the paws' centres: half a paw above the bottom edge.
pub const PAW_Y: i64 = -360000;

/// Everything the game keeps from one frame to the next.
pub struct World {
    pub state: GameState,
    pub score: u32,
    pub high_score: u32,
    /// The balls in play; empty outside the game screen.
    pub balls: Vec<Body>,
    /// The two paws; empty outside the game screen.
    pub paws: Vec<Body>,
    /// Elapsed time of the splash screen, in milliseconds.
    pub splash_ms: u64,
    /// Elapsed time within the menu prompt's blink interval, in milliseconds.
    pub blink_ms: u64,
    /// Whether the menu prompt is shown.
    pub prompt_visible: bool,
}

/// The mathematical content of a `World`.
pub struct WorldView {
    pub state: GameState,
    pub score: u32,
    pub high_score: u32,
    pub balls: Seq<Body>,
    pub paws: Seq<Body>,
    pub splash_ms: u64,
    pub blink_ms: u64,
    pub prompt_visible: bool,
}

impl View for World {
    type V = WorldView;

    open spec fn view(&self) -> WorldView {
        WorldView {
            state: self.state,
            score: self.score,
            high_score: self.high_score,
            balls: self.balls@,
            paws: self.paws@,
            splash_ms: self.splash_ms,
            blink_ms: self.blink_ms,
            prompt_visible: self.prompt_visible,
        }
    }
}

/// A paw in its lane: in range, inside the arena horizontally, not moving
/// vertically.
pub open spec fn paw_ok(p: Body) -> bool {
    &&& body_ok(p)
    &&& -ARENA_HALF <= p.pos.x <= ARENA_HALF
    &&& p.vel.y == 0
}

/// Well-formedness: the high score covers the score, each screen's data is
/// present only while that screen shows, and bodies stay in range.
pub open spec fn view_ok(v: WorldView) -> bool {
    &&& v.high_score >= v.score
    &&& v.blink_ms < BLINK_MS
    &&& (v.state == GameState::Splash ==> v.splash_ms < SPLASH_MS)
    &&& (v.state != GameState::Splash ==> v.splash_ms == 0)
    &&& (v.state != GameState::Menu ==> v.blink_ms == 0 && v.prompt_visible)
    &&& (v.state != GameState::Game ==> v.balls.len() == 0 && v.paws.len() == 0)
    &&& (v.state == GameState::Game ==> v.paws.len() == 2 && v.balls.len() > 0)
    &&& forall|i: int| 0 <= i < v.balls.len() ==> body_ok(#[trigger] v.balls[i])
    &&& forall|i: int| 0 <= i < v.paws.len() ==> paw_ok(#[trigger] v.paws[i])
}

pub open spec fn ball_at(x: int, vx: int, vy: int) -> Body {
    Body {
        pos: Vec2 { x: x as i64, y: 0 },
        size: Vec2 { x: BALL_SIZE, y: BALL_SIZE },
        vel: Vec2 { x: vx as i64, y: vy as i64 },
    }
}

pub open spec fn paw_at(x: int) -> Body {
    Body {
        pos: Vec2 { x: x as i64, y: PAW_Y },
        size: Vec2 { x: PAW_WIDTH, y: PAW_HEIGHT },
        vel: Vec2 { x: 0, y: 0 },
    }
}

/// The balls a round starts with: one at x = 30 heading down and right, one
/// at the centre heading down and left, both at base speed.
pub open spec fn first_balls() -> Seq<Body> {
    seq![
        ball_at(270000, BASE_BALL_SPEED as int, -BASE_BALL_SPEED),
        ball_at(0, -BASE_BALL_SPEED, -BASE_BALL_SPEED),
    ]
}

/// The paws a round starts with, a quarter of the arena left and right of
/// the centre, resting on the bottom edge.
pub open spec fn first_paws() -> Seq<Body> {
    seq![paw_at(-PAW_START_X), paw_at(PAW_START_X as int)]
}

pub open spec fn frictioned(paws: Seq<Body>) -> Seq<Body> {
    paws.map_values(|p: Body| with_vel_x(p, decayed(p.vel.x as int)))
}

pub open spec fn moved_all(bodies: Seq<Body>) -> Seq<Body> {
    bodies.map_values(|b: Body| moved(b))
}

pub open spec fn clamped_all(paws: Seq<Body>) -> Seq<Body> {
    paws.map_values(|p: Body| clamped(p))
}

/// The paws after a frame of play: touches push them, friction slows them,
/// they move and are pulled back inside the arena.
pub open spec fn steered(paws: Seq<Body>, touches: Seq<Vec2>) -> Seq<Body> {
    clamped_all(moved_all(frictioned(touched(paws, touches))))
}

/// One frame of play: the paws are steered; the balls bounce off the walls,
/// move, bounce off the paws where they are now, and those that fell out are
/// removed. Returns the balls, the paws and the score.
pub open spec fn play(balls: Seq<Body>, paws: Seq<Body>, score: u32, touches: Seq<Vec2>) -> (
    Seq<Body>,
    Seq<Body>,
    u32,
) {
    let p = steered(paws, touches);
    let (b1, s1) = walls_upto(balls, score, balls.len() as int);
    let (b2, s2) = balls_paws_upto(moved_all(b1), s1, p, b1.len() as int);
    (kept(b2), p, s2)
}

pub open spec fn menu_view(v: WorldView) -> WorldView {
    WorldView { state: GameState::Menu, splash_ms: 0, blink_ms: 0, prompt_visible: true, ..v }
}

pub open spec fn game_view(v: WorldView) -> WorldView {
    WorldView {
        state: GameState::Game,
        balls: first_balls(),
        paws: first_paws(),
        blink_ms: 0,
        prompt_visible: true,
        ..v
    }
}

/// The world after one frame with the given touches, `dt` milliseconds after
/// the previous one (a negative `dt` counts as zero).
pub open spec fn step(v: WorldView, touches: Seq<Vec2>, dt: int) -> WorldView {
    let d = if dt < 0 { 0 } else { dt };
    match v.state {
        GameState::Splash => {
            if splash_fires(v.splash_ms as int, d) {
                menu_view(v)
            } else {
                WorldView { splash_ms: splash_after(v.splash_ms as int, d) as u64, ..v }
            }
        },
        GameState::Menu => {
            if touches.len() > 0 {
                game_view(v)
            } else {
                let t = v.blink_ms + d;
                WorldView {
                    blink_ms: (t % (BLINK_MS as int)) as u64,
                    prompt_visible: if t >= BLINK_MS { !v.prompt_visible } else { v.prompt_visible },
                    ..v
                }
            }
        },
        GameState::Game => {
            let (b, p, s) = play(v.balls, v.paws, v.score, touches);
            let hs = if s > v.high_score { s } else { v.high_score };
            if b.len() == 0 {
                WorldView {
                    state: GameState::GameOver,
                    score: s,
                    high_score: hs,
                    balls: Seq::empty(),
                    paws: Seq::empty(),
                    ..v
                }
            } else {
                WorldView { score: s, high_score: hs, balls: b, paws: p, ..v }
            }
        },
        GameState::GameOver => {
            if touches.len() > 0 {
                WorldView { state: GameState::Splash, score: 0, splash_ms: 0, ..v }
            } else {
                v
            }
        },
    }
}

fn spawn_balls() -> (r: Vec<Body>)
    ensures
        r@ == first_balls(),
{
    let mut v: Vec<Body> = Vec::new();
    v.push(
        Body {
            pos: Vec2 { x: 270000, y: 0 },
            size: Vec2 { x: BALL_SIZE, y: BALL_SIZE },
            vel: Vec2 { x: BASE_BALL_SPEED, y: -BASE_BALL_SPEED },
        },
    );
    v.push(
        Body {
            pos: Vec2 { x: 0, y: 0 },
            size: Vec2 { x: BALL_SIZE, y: BALL_SIZE },
            vel: Vec2 { x: -BASE_BALL_SPEED, y: -BASE_BALL_SPEED },
        },
    );
    assert(v@ =~= first_balls());
    v
}

fn spawn_paws() -> (r: Vec<Body>)
    ensures
        r@ == first_paws(),
{
    let mut v: Vec<Body> = Vec::new();
    v.push(
        Body {
            pos: Vec2 { x: -PAW_START_X, y: PAW_Y },
            size: Vec2 { x: PAW_WIDTH, y: PAW_HEIGHT },
            vel: Vec2 { x: 0, y: 0 },
        },
    );
    v.push(
        Body {
            pos: Vec2 { x: PAW_START_X, y: PAW_Y },
            size: Vec2 { x: PAW_WIDTH, y: PAW_HEIGHT },
            vel: Vec2 { x: 0, y: 0 },
        },
    );
    assert(v@ =~= first_paws());
    v
}

impl World {
    pub open spec fn wf(&self) -> bool {
        view_ok(self@)
    }

    /// A world at process start: the splash screen, with both scores zero.
    pub fn new() -> (r: World)
        ensures
            r.wf(),
            r.state == GameState::Splash,
            r.score == 0,
            r.high_score == 0,
            r.splash_ms == 0,
            r.balls@.len() == 0,
            r.paws@.len() == 0,
    {
        World {
            state: GameState::Splash,
            score: 0,
            high_score: 0,
            balls: Vec::new(),
            paws: Vec::new(),
            splash_ms: 0,
            blink_ms: 0,
            prompt_visible: true,
        }
    }

    /// Size of the splash title at the splash timer's current elapsed time.
    pub fn title_size(&self) -> (r: Vec2)
        requires
            self.wf(),
        ensures
            r == title_size(self.splash_ms as int),
    {
        zoom(self.splash_ms)
    }

    /// Plays one frame of a round: steers the paws by the touches, bounces the
    /// balls off the walls, moves everything, bounces the balls off the paws
    /// and removes the balls that fell out.
    pub fn play_round(&mut self, touches: &Vec<Vec2>)
        requires
            old(self).wf(),
            old(self).state == GameState::Game,
        ensures
            (final(self).balls@, final(self).paws@, final(self).score) == play(
                old(self).balls@,
                old(self).paws@,
                old(self).score,
                touches@,
            ),
            final(self).balls@.len() <= old(self).balls@.len(),
            forall|i: int|
                0 <= i < final(self).balls@.len() ==> body_ok(#[trigger] final(self).balls@[i]),
            final(self).paws@.len() == 2,
            forall|i: int| 0 <= i < final(self).paws@.len() ==> paw_ok(#[trigger] final(self).paws@[i]),
            final(self).score >= old(self).score,
            final(self).state == old(self).state,
            final(self).high_score == old(self).high_score,
            final(self).splash_ms == old(self).splash_ms,
            final(self).blink_ms == old(self).blink_ms,
            final(self).prompt_visible == old(self).prompt_visible,
    {
        let ghost p0 = self.paws@;
        let ghost b0 = self.balls@;
        let ghost s0 = self.score;
        proof {
            assert(paws_ok(p0)) by {
                assert forall|i: int| 0 <= i < p0.len() implies body_ok(#[trigger] p0[i]) by {
                    assert(paw_ok(p0[i]));
                }
            }
            lemma_touched_keeps(p0, touches@);
        }
        move_paws(&mut self.paws, touches);
        paw_friction(&mut self.paws);
        let ghost p2 = self.paws@;
        assert(p2 =~= frictioned(touched(p0, touches@)));
        apply_velocities(&mut self.paws);
        let ghost p3 = self.paws@;
        assert(p3 =~= moved_all(p2));
        clamp_paw_movement(&mut self.paws);
        assert(self.paws@ =~= steered(p0, touches@));
        proof {
            assert forall|i: int| 0 <= i < self.paws@.len() implies paw_ok(#[trigger] self.paws@[i]) by {
                assert(paw_ok(p0[i]));
                assert(p2[i].vel.y == 0);
            }
        }

        bounce_balls_off_walls(&mut self.balls, &mut self.score);
        let ghost b1 = self.balls@;
        let ghost s1 = self.score;
        proof {
            lemma_walls_upto(b0, s0, b0.len() as int);
        }
        apply_velocities(&mut self.balls);
        let ghost b2 = self.balls@;
        assert(b2 =~= moved_all(b1));
        proof {
            assert forall|i: int| 0 <= i < b2.len() implies in_flight(#[trigger] b2[i]) by {
                lemma_moved_aimed(b1[i]);
            }
        }
        bounce_balls_off_paws(&mut self.balls, &self.paws, &mut self.score);
        let ghost b3 = self.balls@;
        proof {
            lemma_balls_paws_upto(b2, s1, self.paws@, b2.len() as int);
            assert forall|i: int| 0 <= i < b3.len() implies in_flight(#[trigger] b3[i]) by {
                assert(in_flight(b2[i]));
            }
            lemma_kept_ok(b3);
        }
        despawn_fallen(&mut self.balls);
    }

    /// Runs one frame: the touches active now, and the time in milliseconds
    /// since the previous frame (a negative time counts as zero).
    ///
    /// The splash screen gives way to the menu when its timer runs out; the
    /// menu blinks its prompt and starts a round on any touch; a round plays
    /// until no ball is left and then shows the game over screen; any touch
    /// there resets the score and returns to the splash screen. Leaving a
    /// screen drops everything that belonged to it.
    pub fn frame(&mut self, touches: &Vec<Vec2>, dt_ms: i64)
        requires
            old(self).wf(),
        ensures
            final(self).wf(),
            final(self)@ == step(old(self)@, touches@, dt_ms as int),
    {
        let dt: u64 = if dt_ms < 0 {
            0
        } else {
            dt_ms as u64
        };
        match self.state {
            GameState::Splash => {
                let (elapsed, fired) = tick_splash(self.splash_ms, dt);
                if fired {
                    self.state = GameState::Menu;
                    self.splash_ms = 0;
                    self.blink_ms = 0;
                    self.prompt_visible = true;
                } else {
                    self.splash_ms = elapsed;
                }
            },
            GameState::Menu => {
                if touches.len() > 0 {
                    self.state = GameState::Game;
                    self.balls = spawn_balls();
                    self.paws = spawn_paws();
                    self.blink_ms = 0;
                    self.prompt_visible = true;
                } else {
                    let (elapsed, toggled) = tick_blink(self.blink_ms, dt);
                    self.blink_ms = elapsed;
                    if toggled {
                        self.prompt_visible = !self.prompt_visible;
                    }
                }
            },
            GameState::Game => {
                self.play_round(touches);
                self.update_high_score();
                if self.balls.len() == 0 {
                    self.state = GameState::GameOver;
                    self.paws = Vec::new();
                }
            },
            GameState::GameOver => {
                if touches.len() > 0 {
                    self.state = GameState::Splash;
                    self.score = 0;
                    self.splash_ms = 0;
                }
            },
        }
        assert(self@.balls =~= step(old(self)@, touches@, dt_ms as int).balls);
        assert(self@.paws =~= step(old(self)@, touches@, dt_ms as int).paws);
    }

    /// Raises the high score to the score when the score is higher.
    pub fn update_high_score(&mut self)
        ensures
            final(self).high_score == if old(self).score > old(self).high_score {
                old(self).score
            } else {
                old(self).high_score
            },
            final(self).score == old(self).score,
            final(self).state == old(self).state,
            final(self).balls@ == old(self).balls@,
            final(self).paws@ == old(self).paws@,
            final(self).splash_ms == old(self).splash_ms,
            final(self).blink_ms == old(self).blink_ms,
            final(self).prompt_visible == old(self).prompt_visible,
    {
        if self.high_score < self.score {
            self.high_score = self.score;
        }
    }
}

/// The screen that follows `s` in the cycle.
pub open spec fn next_state(s: GameState) -> GameState {
    match s {
        GameState::Splash => GameState::Menu,
        GameState::Menu => GameState::Game,
        GameState::Game => GameState::GameOver,
        GameState::GameOver => GameState::Splash,
    }
}

/// A frame either stays on its screen or moves to the next one in the cycle:
/// no screen is skipped.
pub proof fn lemma_state_cycle(v: WorldView, touches: Seq<Vec2>, dt: int)
    requires
        view_ok(v),
    ensures
        step(v, touches, dt).state == v.state || step(v, touches, dt).state == next_state(v.state),
{
}

/// The score never drops during a round, and the high score never drops at
/// all; after every frame the high score covers the score.
pub proof fn lemma_scores_never_drop(v: WorldView, touches: Seq<Vec2>, dt: int)
    requires
        view_ok(v),
    ensures
        v.state == GameState::Game ==> step(v, touches, dt).score >= v.score,
        step(v, touches, dt).high_score >= v.high_score,
        step(v, touches, dt).high_score >= step(v, touches, dt).score,
{
    if v.state == GameState::Game {
        lemma_walls_upto(v.balls, v.score, v.balls.len() as int);
        let (b1, s1) = walls_upto(v.balls, v.score, v.balls.len() as int);
        lemma_balls_paws_upto(moved_all(b1), s1, steered(v.paws, touches), b1.len() as int);
    }
}

/// With no touches the paw controller adds nothing: the touches leave the
/// paws as they are, and over a frame that keeps the round going each paw's
/// horizontal velocity only decays by friction.
pub proof fn lemma_no_touch_only_friction(v: WorldView, dt: int)
    requires
        view_ok(v),
        v.state == GameState::Game,
    ensures
        touched(v.paws, Seq::empty()) == v.paws,
        step(v, Seq::empty(), dt).state == GameState::Game ==> forall|i: int|
            0 <= i < 2 ==> (#[trigger] step(v, Seq::empty(), dt).paws[i]).vel.x == decayed(
                v.paws[i].vel.x as int,
            ),
{
}

/// A round that ends with no ball left goes to the game over screen; the
/// next touch returns to the splash screen with the score reset to zero and
/// the high score unchanged.
pub proof fn lemma_round_trip(
    v: WorldView,
    t1: Seq<Vec2>,
    dt1: int,
    t2: Seq<Vec2>,
    dt2: int,
)
    requires
        view_ok(v),
        v.state == GameState::Game,
        play(v.balls, v.paws, v.score, t1).0.len() == 0,
        t2.len() > 0,
    ensures
        step(v, t1, dt1).state == GameState::GameOver,
        step(v, t1, dt1).high_score >= play(v.balls, v.paws, v.score, t1).2,
        step(step(v, t1, dt1), t2, dt2).state == GameState::Splash,
        step(step(v, t1, dt1), t2, dt2).score == 0,
        step(step(v, t1, dt1), t2, dt2).high_score == step(v, t1, dt1).high_score,
{
}

/// When the splash timer runs out the menu shows, and the frames after that
/// never return to the splash screen on their own: the switch fires once.
pub proof fn lemma_splash_to_menu_once(
    v: WorldView,
    t1: Seq<Vec2>,
    dt1: int,
    t2: Seq<Vec2>,
    dt2: int,
)
    requires
        view_ok(v),
        v.state == GameState::Splash,
        v.splash_ms + dt1 >= SPLASH_MS,
    ensures
        step(v, t1, dt1).state == GameState::Menu,
        step(step(v, t1, dt1), t2, dt2).state != GameState::Splash,
{
}

/// Before the splash timer runs out the splash screen stays and its timer
/// advances by the frame time.
pub proof fn lemma_splash_waits(v: WorldView, touches: Seq<Vec2>, dt: int)
    requires
        view_ok(v),
        v.state == GameState::Splash,
        0 <= dt,
        v.splash_ms + dt < SPLASH_MS,
    ensures
        step(v, touches, dt).state == GameState::Splash,
        step(v, touches, dt).splash_ms == v.splash_ms + dt,
{
}

/// After a frame of play both paws are inside the arena horizontally.
pub proof fn lemma_paws_stay_in_arena(v: WorldView, touches: Seq<Vec2>, dt: int)
    requires
        view_ok(v),
    ensures
        forall|i: int|
            0 <= i < step(v, touches, dt).paws.len() ==> -ARENA_HALF <= (
            #[trigger] step(v, touches, dt).paws[i]).pos.x <= ARENA_HALF,
{
    if v.state == GameState::Menu && touches.len() > 0 {
        assert(first_paws()[0].pos.x == -PAW_START_X);
        assert(first_paws()[1].pos.x == PAW_START_X);
    }
}

} // verus!
