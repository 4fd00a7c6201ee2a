use paw_pong::geometry::Vec2;
use paw_pong::screens::GameState;
use paw_pong::world::World;

fn touch() -> Vec<Vec2> {
    vec![Vec2::new(0, 0)]
}

#[test]
fn splash_gives_way_to_menu_after_its_time() {
    let mut w = World::new();
    let none = Vec::new();
    w.frame(&none, 1400);
    assert_eq!(w.state, GameState::Splash);
    assert_eq!(w.title_size(), Vec2::new(630000, 420000));
    // Touches do not shorten the splash.
    w.frame(&touch(), 99);
    assert_eq!(w.state, GameState::Splash);
    w.frame(&none, 1);
    assert_eq!(w.state, GameState::Menu);
    assert_eq!(w.splash_ms, 0);
    w.frame(&none, 5000);
    assert_eq!(w.state, GameState::Menu);
}

#[test]
fn negative_time_counts_as_zero() {
    let mut w = World::new();
    w.frame(&Vec::new(), -500);
    assert_eq!(w.state, GameState::Splash);
    assert_eq!(w.splash_ms, 0);
}

#[test]
fn menu_blinks_and_starts_on_touch() {
    let mut w = World::new();
    w.frame(&Vec::new(), 1500);
    assert_eq!(w.state, GameState::Menu);
    assert!(w.prompt_visible);
    w.frame(&Vec::new(), 999);
    assert!(w.prompt_visible);
    w.frame(&Vec::new(), 1);
    assert!(!w.prompt_visible);
    w.frame(&Vec::new(), 1000);
    assert!(w.prompt_visible);
    w.frame(&touch(), 16);
    assert_eq!(w.state, GameState::Game);
    assert_eq!(w.balls.len(), 2);
    assert_eq!(w.paws.len(), 2);
    assert_eq!(w.balls[0].pos, Vec2::new(270000, 0));
    assert_eq!(w.balls[1].vel, Vec2::new(-1800, -1800));
    assert_eq!(w.paws[0].pos, Vec2::new(-225000, -360000));
    assert_eq!(w.paws[1].pos, Vec2::new(225000, -360000));
}

#[test]
fn a_round_ends_and_a_touch_resets_the_score() {
    let mut w = World::new();
    w.frame(&Vec::new(), 1500);
    w.frame(&touch(), 16);
    assert_eq!(w.state, GameState::Game);
    let mut frames = 0;
    let mut last_score = w.score;
    let mut last_high = w.high_score;
    while w.state == GameState::Game && frames < 100000 {
        w.frame(&Vec::new(), 16);
        assert!(w.score >= last_score);
        assert!(w.high_score >= last_high);
        assert!(w.high_score >= w.score);
        for p in &w.paws {
            assert!(-450000 <= p.pos.x && p.pos.x <= 450000);
        }
        last_score = w.score;
        last_high = w.high_score;
        frames += 1;
    }
    assert_eq!(w.state, GameState::GameOver);
    assert!(w.balls.is_empty());
    assert!(w.paws.is_empty());
    let high = w.high_score;
    assert_eq!(high, w.score);
    w.frame(&Vec::new(), 16);
    assert_eq!(w.state, GameState::GameOver);
    w.frame(&touch(), 16);
    assert_eq!(w.state, GameState::Splash);
    assert_eq!(w.score, 0);
    assert_eq!(w.high_score, high);
}

#[test]
fn chasing_paws_score_points() {
    let mut w = World::new();
    w.frame(&Vec::new(), 1500);
    w.frame(&touch(), 16);
    // Hold a touch under each ball's path so that the paws chase the balls.
    let mut frames = 0;
    while w.state == GameState::Game && frames < 2000 {
        let touches: Vec<Vec2> = w.balls.iter().map(|b| Vec2::new(b.pos.x, 0)).collect();
        w.frame(&touches, 16);
        frames += 1;
    }
    assert!(w.high_score > 0);
}

#[test]
fn without_touches_paws_only_slow_down() {
    let mut w = World::new();
    w.frame(&Vec::new(), 1500);
    w.frame(&touch(), 16);
    w.frame(&vec![Vec2::new(-450000, 0)], 16);
    let v0 = w.paws[0].vel.x;
    // A push of -16875, then three tenths of it lost to friction.
    assert_eq!(v0, -11813);
    w.frame(&Vec::new(), 16);
    assert_eq!(w.paws[0].vel.x, v0 - (v0 * 3) / 10);
    assert_eq!(w.paws[1].vel.x, 0);
}
