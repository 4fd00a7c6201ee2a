use paw_pong::geometry::Vec2;
use paw_pong::paddles::{clamp_paw_movement, move_paws, nearest_paw, paw_friction};
use paw_pong::physics::Body;

fn paw(x: i64, vx: i64) -> Body {
    Body { pos: Vec2::new(x, -360000), size: Vec2::new(120000, 180000), vel: Vec2::new(vx, 0) }
}

#[test]
fn two_touches_push_their_nearest_paws() {
    // Paws at x = -25 and 25; touches at x = -10 and 20.
    let mut paws = vec![paw(-225000, 0), paw(225000, 0)];
    let touches = vec![Vec2::new(-90000, 0), Vec2::new(180000, 0)];
    move_paws(&mut paws, &touches);
    // (15 / 100) * 5 * 1.5 = 1.125 world units; (-5 / 100) * 7.5 = -0.375.
    assert_eq!(paws[0].vel.x, 10125);
    assert_eq!(paws[1].vel.x, -3375);
    assert_eq!(paws[0].pos, Vec2::new(-225000, -360000));
}

#[test]
fn touches_on_one_paw_add_up() {
    let mut paws = vec![paw(-225000, 0), paw(225000, 0)];
    let touches = vec![Vec2::new(-90000, 0), Vec2::new(-90000, 0)];
    move_paws(&mut paws, &touches);
    assert_eq!(paws[0].vel.x, 20250);
    assert_eq!(paws[1].vel.x, 0);
}

#[test]
fn no_touches_change_nothing() {
    let mut paws = vec![paw(-225000, 700), paw(225000, -40)];
    let before = paws.clone();
    move_paws(&mut paws, &Vec::new());
    assert_eq!(paws, before);
}

#[test]
fn direction_is_clamped_to_half() {
    let mut paws = vec![paw(-450000, 0), paw(450000, 0)];
    // The centre touch ties and goes to the first paw, a full 50 world units away.
    move_paws(&mut paws, &vec![Vec2::new(0, 0)]);
    assert_eq!(paws[0].vel.x, 33750);
    assert_eq!(paws[1].vel.x, 0);
    // A touch far to the left pushes the left paw back by no more than that.
    move_paws(&mut paws, &vec![Vec2::new(i64::MIN, 0)]);
    assert_eq!(paws[0].vel.x, 0);
    assert_eq!(paws[1].vel.x, 0);
}

#[test]
fn far_touch_push_is_clamped() {
    let mut paws = vec![paw(-450000, 0), paw(450000, 0)];
    move_paws(&mut paws, &vec![Vec2::new(-9_000_000_000, 0)]);
    assert_eq!(paws[0].vel.x, -33750);
}

#[test]
fn nearest_breaks_ties_by_order() {
    let paws = vec![paw(-225000, 0), paw(225000, 0)];
    assert_eq!(nearest_paw(&paws, 0), 0);
    assert_eq!(nearest_paw(&paws, 1), 1);
    assert_eq!(nearest_paw(&paws, -1), 0);
    assert_eq!(nearest_paw(&paws, i64::MAX), 1);
}

#[test]
fn friction_removes_three_tenths() {
    let mut paws = vec![paw(0, 1000), paw(0, -1000), paw(0, 5), paw(0, -5), paw(0, 0)];
    paw_friction(&mut paws);
    assert_eq!(paws[0].vel.x, 700);
    assert_eq!(paws[1].vel.x, -700);
    assert_eq!(paws[2].vel.x, 4);
    assert_eq!(paws[3].vel.x, -4);
    assert_eq!(paws[4].vel.x, 0);
}

#[test]
fn paws_are_clamped_to_the_arena() {
    let mut paws = vec![paw(-460000, 0), paw(460000, 0), paw(12, 0)];
    clamp_paw_movement(&mut paws);
    assert_eq!(paws[0].pos.x, -450000);
    assert_eq!(paws[1].pos.x, 450000);
    assert_eq!(paws[2].pos.x, 12);
    for p in &paws {
        assert!(-450000 <= p.pos.x && p.pos.x <= 450000);
    }
}
