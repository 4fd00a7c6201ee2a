use vstd::prelude::*;

use crate::geometry::Vec2;
use vstd::arithmetic::div_mod::lemma_add_mod_noop_right;

verus! {

/// The four screens of the game, visited in the cycle
/// `Splash -> Menu -> Game -> GameOver -> Splash`.
#[derive(Clone, Copy, Debug, PartialEq, Eq, Structural)]
pub enum GameState {
    Splash,
    Menu,
    Game,
    GameOver,
}

/// How long the splash screen shows, in milliseconds.
pub const SPLASH_MS: u64 = 1500;

/// Interval at which the menu's prompt blinks, in milliseconds.
pub const BLINK_MS: u64 = 1000;

/// Full width of the splash title, in sub-units (75 world units).
pub const TITLE_WIDTH: i64 = 675000;

/// Full height of the splash title, in sub-units (50 world units).
pub const TITLE_HEIGHT: i64 = 450000;

/// The splash timer's elapsed time after a tick; it stops at the duration.
pub open spec fn splash_after(elapsed: int, dt: int) -> int {
    if elapsed + dt >= SPLASH_MS { SPLASH_MS as int } else { elapsed + dt }
}

/// The splash timer runs out on this tick: it was running and reaches the
/// duration.
pub open spec fn splash_fires(elapsed: int, dt: int) -> bool {
    elapsed < SPLASH_MS && elapsed + dt >= SPLASH_MS
}

/// Advances the one-shot splash timer by `dt` milliseconds. Returns the new
/// elapsed time and whether the timer ran out on this tick.
pub fn tick_splash(elapsed: u64, dt: u64) -> (r: (u64, bool))
    requires
        elapsed <= SPLASH_MS,
    ensures
        r.0 == splash_after(elapsed as int, dt as int),
        r.1 == splash_fires(elapsed as int, dt as int),
{
    if dt >= SPLASH_MS - elapsed {
        (SPLASH_MS, elapsed < SPLASH_MS)
    } else {
        (elapsed + dt, false)
    }
}

/// Once the splash timer has run out, further ticks leave it where it is and
/// never fire again: it fires exactly once.
pub proof fn lemma_splash_fires_once(elapsed: int, dt1: int, dt2: int)
    requires
        0 <= elapsed <= SPLASH_MS,
        0 <= dt1,
        0 <= dt2,
        splash_fires(elapsed, dt1),
    ensures
        splash_after(elapsed, dt1) == SPLASH_MS,
        !splash_fires(splash_after(elapsed, dt1), dt2),
        splash_after(splash_after(elapsed, dt1), dt2) == SPLASH_MS,
{
}

/// Size of the splash title: the full size scaled by `elapsed / SPLASH_MS`.
pub open spec fn title_size(elapsed: int) -> Vec2 {
    Vec2 {
        x: (TITLE_WIDTH * elapsed / (SPLASH_MS as int)) as i64,
        y: (TITLE_HEIGHT * elapsed / (SPLASH_MS as int)) as i64,
    }
}

/// The splash title's size after `elapsed` milliseconds: it grows from zero
/// to full size over the splash duration.
pub fn zoom(elapsed: u64) -> (r: Vec2)
    requires
        elapsed <= SPLASH_MS,
    ensures
        r == title_size(elapsed as int),
        r.x * (SPLASH_MS as int) == TITLE_WIDTH * elapsed,
        r.y * (SPLASH_MS as int) == TITLE_HEIGHT * elapsed,
{
    let e = elapsed as i64;
    Vec2 { x: (TITLE_WIDTH / 1500) * e, y: (TITLE_HEIGHT / 1500) * e }
}

/// Advances the repeating blink timer by `dt` milliseconds. Returns the new
/// elapsed time within the interval and whether the interval ran out, in
/// which case the prompt toggles (once, however many intervals passed).
pub fn tick_blink(elapsed: u64, dt: u64) -> (r: (u64, bool))
    requires
        elapsed < BLINK_MS,
    ensures
        r.0 == (elapsed + dt) % (BLINK_MS as int),
        r.1 == (elapsed + dt >= BLINK_MS),
{
    proof {
        lemma_add_mod_noop_right(elapsed as int, dt as int, BLINK_MS as int);
    }
    let fired = dt >= BLINK_MS - elapsed;
    ((elapsed + dt % BLINK_MS) % BLINK_MS, fired)
}

} // verus!
