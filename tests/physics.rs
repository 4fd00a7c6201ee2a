use paw_pong::geometry::{hit_box, intersects, Rect, Vec2};
use paw_pong::physics::{
    apply_velocity, bounce_ball_off_paws, bounce_balls_off_walls, bounce_off_walls,
    calc_ball_velocity, despawn_fallen, has_fallen, Body,
};

fn ball(x: i64, y: i64, vx: i64, vy: i64) -> Body {
    Body { pos: Vec2::new(x, y), size: Vec2::new(90000, 90000), vel: Vec2::new(vx, vy) }
}

fn paw(x: i64) -> Body {
    Body { pos: Vec2::new(x, -360000), size: Vec2::new(120000, 180000), vel: Vec2::new(0, 0) }
}

#[test]
fn ball_speed_grows_with_score() {
    assert_eq!(calc_ball_velocity(0), 1800);
    assert_eq!(calc_ball_velocity(1), 1860);
    assert_eq!(calc_ball_velocity(30), 3600);
    assert_eq!(calc_ball_velocity(u32::MAX), 60 * (30 + u32::MAX as i64));
}

#[test]
fn right_wall_reverses_and_scores() {
    // A ball at x = 49.5 moving right at 0.2: its right edge is at 54.5 > 50.
    let mut b = ball(445500, 0, 1800, 0);
    let mut score: u32 = 0;
    bounce_off_walls(&mut b, &mut score);
    assert_eq!(score, 1);
    assert!(b.vel.x < 0);
    assert_eq!(b.vel.x, -1860);
    assert_eq!(b.vel.y, 0);
    assert_eq!(b.pos, Vec2::new(445500, 0));
}

#[test]
fn left_wall_reverses_and_scores() {
    let mut b = ball(-420000, 10, -1800, 500);
    let mut score: u32 = 29;
    bounce_off_walls(&mut b, &mut score);
    assert_eq!(score, 30);
    assert_eq!(b.vel.x, 3600);
    assert_eq!(b.vel.y, 500);
}

#[test]
fn top_wall_reverses_and_scores() {
    let mut b = ball(0, 420000, 100, 1800);
    let mut score: u32 = 4;
    bounce_off_walls(&mut b, &mut score);
    assert_eq!(score, 5);
    assert_eq!(b.vel.y, -(60 * 35));
    assert_eq!(b.vel.x, 100);
}

#[test]
fn corner_bounces_twice_with_rising_speed() {
    let mut b = ball(420000, 420000, 1800, 1800);
    let mut score: u32 = 0;
    bounce_off_walls(&mut b, &mut score);
    assert_eq!(score, 2);
    assert_eq!(b.vel.x, -1860);
    assert_eq!(b.vel.y, -1920);
}

#[test]
fn ball_moving_inward_is_left_alone() {
    let mut b = ball(445500, 0, -1800, 0);
    let mut score: u32 = 3;
    bounce_off_walls(&mut b, &mut score);
    assert_eq!(score, 3);
    assert_eq!(b.vel, Vec2::new(-1800, 0));
}

#[test]
fn no_bottom_wall() {
    let mut b = ball(0, -440000, 0, -1800);
    let mut score: u32 = 0;
    bounce_off_walls(&mut b, &mut score);
    assert_eq!(score, 0);
    assert_eq!(b.vel.y, -1800);
}

#[test]
fn score_stops_at_its_largest_value() {
    let mut b = ball(445500, 0, 1800, 0);
    let mut score: u32 = u32::MAX;
    bounce_off_walls(&mut b, &mut score);
    assert_eq!(score, u32::MAX);
    assert_eq!(b.vel.x, -calc_ball_velocity(u32::MAX));
}

#[test]
fn walls_for_every_ball_in_order() {
    let mut balls = vec![ball(445500, 0, 1800, 0), ball(0, 0, 10, 10), ball(-445500, 0, -1800, 0)];
    let mut score: u32 = 0;
    bounce_balls_off_walls(&mut balls, &mut score);
    assert_eq!(score, 2);
    assert_eq!(balls[0].vel.x, -1860);
    assert_eq!(balls[1].vel, Vec2::new(10, 10));
    assert_eq!(balls[2].vel.x, 1920);
}

#[test]
fn velocity_moves_position() {
    let mut b = ball(445500, 0, 1800, -1800);
    apply_velocity(&mut b);
    assert_eq!(b.pos, Vec2::new(447300, -1800));
}

#[test]
fn hit_box_is_size_over_one_and_a_half() {
    let r = hit_box(Vec2::new(0, 0), Vec2::new(90000, 90000));
    assert_eq!(r, Rect { min: Vec2::new(-30000, -30000), max: Vec2::new(30000, 30000) });
    let p = hit_box(Vec2::new(225000, -360000), Vec2::new(120000, 180000));
    assert_eq!(p, Rect { min: Vec2::new(185000, -420000), max: Vec2::new(265000, -300000) });
}

#[test]
fn touching_edges_do_not_intersect() {
    let a = Rect { min: Vec2::new(0, 0), max: Vec2::new(10, 10) };
    let b = Rect { min: Vec2::new(10, 0), max: Vec2::new(20, 10) };
    let c = Rect { min: Vec2::new(9, 9), max: Vec2::new(20, 20) };
    assert!(!intersects(&a, &b));
    assert!(intersects(&a, &c));
    assert!(intersects(&c, &a));
}

#[test]
fn falling_ball_on_paw_goes_up_and_scores() {
    let paws = vec![paw(-225000), paw(225000)];
    let mut b = ball(225000, -300000, 300, -1800);
    let mut score: u32 = 2;
    bounce_ball_off_paws(&mut b, &paws, &mut score);
    assert_eq!(score, 3);
    assert_eq!(b.vel.y, 1980);
    assert_eq!(b.vel.x, 300);
}

#[test]
fn rising_ball_passes_paw() {
    let paws = vec![paw(-225000), paw(225000)];
    let mut b = ball(225000, -300000, 0, 1800);
    let mut score: u32 = 2;
    bounce_ball_off_paws(&mut b, &paws, &mut score);
    assert_eq!(score, 2);
    assert_eq!(b.vel.y, 1800);
}

#[test]
fn ball_away_from_paws_is_left_alone() {
    let paws = vec![paw(-225000), paw(225000)];
    let mut b = ball(0, -300000, 0, -1800);
    let mut score: u32 = 0;
    bounce_ball_off_paws(&mut b, &paws, &mut score);
    assert_eq!(score, 0);
    assert_eq!(b.vel.y, -1800);
}

#[test]
fn fallen_balls_are_removed_in_order() {
    // Fallen when the top edge (y + 5) is below -60, i.e. y < -65 world units.
    assert!(!has_fallen(&ball(0, -585000, 0, 0)));
    assert!(has_fallen(&ball(0, -585001, 0, 0)));
    let mut balls = vec![ball(1, -600000, 0, 0), ball(2, 0, 0, 0), ball(3, -585000, 0, 0)];
    despawn_fallen(&mut balls);
    assert_eq!(balls.len(), 2);
    assert_eq!(balls[0].pos.x, 2);
    assert_eq!(balls[1].pos.x, 3);
}
