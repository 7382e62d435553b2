//! The playing field: the scale of the coordinates and where everything
//! stands on it.
//!
//! The origin is the middle of the screen, `x` grows to the right and `y`
//! grows upward. A position is the centre of a rectangle and a size is its
//! full width and height.

use vstd::prelude::*;

verus! {

/// Length units in one pixel. Whole pixels, half pixels, and the distance
/// covered in one tick at a whole number of pixels per second are all whole
/// numbers of units.
pub const UNITS_PER_PIXEL: i32 = 1440;

/// Simulation steps in one second.
pub const TICKS_PER_SECOND: i32 = 72;

/// Units covered in one tick at one pixel per second:
/// `UNITS_PER_PIXEL` divided by `TICKS_PER_SECOND`.
pub const UNITS_PER_TICK: i32 = 20;

/// The length of a normalized direction vector.
pub const UNIT_LENGTH: i32 = 65536;

pub const SCREEN_WIDTH: i32 = 800 * UNITS_PER_PIXEL;

pub const SCREEN_HEIGHT: i32 = 640 * UNITS_PER_PIXEL;

pub const HALF_SCREEN_WIDTH: i32 = 400 * UNITS_PER_PIXEL;

pub const HALF_SCREEN_HEIGHT: i32 = 320 * UNITS_PER_PIXEL;

pub const WALL_THICKNESS: i32 = 15 * UNITS_PER_PIXEL;

/// Half of `WALL_THICKNESS`.
pub const HALF_WALL_THICKNESS: i32 = 10800;

/// How far each paddle stands in from its edge of the screen.
pub const PADDLE_OFFSET: i32 = 80 * UNITS_PER_PIXEL;

pub const LEFT_PADDLE_X: i32 = PADDLE_OFFSET - HALF_SCREEN_WIDTH;

pub const RIGHT_PADDLE_X: i32 = HALF_SCREEN_WIDTH - PADDLE_OFFSET;

pub const PADDLE_WIDTH: i32 = WALL_THICKNESS;

pub const PADDLE_HEIGHT: i32 = 60 * UNITS_PER_PIXEL;

pub const HALF_PADDLE_HEIGHT: i32 = 30 * UNITS_PER_PIXEL;

pub const PUCK_WIDTH: i32 = WALL_THICKNESS;

pub const PUCK_HEIGHT: i32 = WALL_THICKNESS;

/// Half of `PUCK_HEIGHT`: how far the AI paddle lets its target stray before
/// it moves.
pub const HALF_PUCK_HEIGHT: i32 = HALF_WALL_THICKNESS;

/// The distance the puck covers in one tick: 350 pixels per second.
pub const PUCK_SPEED: i32 = 350 * UNITS_PER_TICK;

/// The direction in which the puck sets off, before it is normalized:
/// half a unit length to the left and as much downward.
pub const INITIAL_PUCK_DIRECTION_X: i32 = -32768;

pub const INITIAL_PUCK_DIRECTION_Y: i32 = -32768;

pub const SIDE_WALL_WIDTH: i32 = WALL_THICKNESS;

pub const SIDE_WALL_HEIGHT: i32 = SCREEN_HEIGHT - WALL_THICKNESS;

pub const END_WALL_WIDTH: i32 = SCREEN_WIDTH - WALL_THICKNESS;

pub const END_WALL_HEIGHT: i32 = WALL_THICKNESS;

pub const LEFT_WALL_X: i32 = WALL_THICKNESS - HALF_SCREEN_WIDTH;

pub const RIGHT_WALL_X: i32 = HALF_SCREEN_WIDTH - WALL_THICKNESS;

pub const TOP_WALL_Y: i32 = HALF_SCREEN_HEIGHT - WALL_THICKNESS;

pub const BOTTOM_WALL_Y: i32 = WALL_THICKNESS - HALF_SCREEN_HEIGHT;

/// The highest position a paddle may take: it then touches the top wall.
pub const TOP_BOUND: i32 = TOP_WALL_Y - HALF_WALL_THICKNESS - HALF_PADDLE_HEIGHT;

/// The lowest position a paddle may take: it then touches the bottom wall.
pub const BOTTOM_BOUND: i32 = BOTTOM_WALL_Y + HALF_WALL_THICKNESS + HALF_PADDLE_HEIGHT;

pub const LINE_WIDTH: i32 = 5 * UNITS_PER_PIXEL;

pub const LINE_HEIGHT: i32 = 20 * UNITS_PER_PIXEL;

/// The number of dashes in the centre line.
pub const NUM_DOTTED_LINES: i32 = 10;

/// The distance between two dashes: `SCREEN_HEIGHT` divided by
/// `NUM_DOTTED_LINES`.
pub const LINE_SPACING: i32 = 64 * UNITS_PER_PIXEL;

/// The position of the lowest dash.
pub const LOWEST_LINE_Y: i32 = LINE_HEIGHT + WALL_THICKNESS - HALF_SCREEN_HEIGHT;

/// The distance the player's paddle covers in one tick: 500 pixels per second.
pub const PLAYER_PADDLE_SPEED: i32 = 500 * UNITS_PER_TICK;

/// The distance the AI paddle covers in one tick at full difficulty:
/// 250 pixels per second.
pub const AI_PADDLE_BASE_SPEED: i32 = 250 * UNITS_PER_TICK;

/// The share of its base speed at which the AI paddle moves, in percent.
/// Below 100 the AI falls behind fast pucks.
pub const DIFFICULTY: i32 = 100;

/// The distance the AI paddle covers in one tick:
/// `AI_PADDLE_BASE_SPEED` times `DIFFICULTY` percent.
pub const AI_PADDLE_SPEED: i32 = 50 * DIFFICULTY;

/// How many bounces off the top and bottom walls the intercept search
/// follows before it gives up.
pub const MAX_BOUNCES: usize = 5;

/// The derived lengths are what their names say.
pub proof fn lemma_layout_consistent()
    ensures
        UNITS_PER_TICK * TICKS_PER_SECOND == UNITS_PER_PIXEL,
        2 * HALF_SCREEN_WIDTH == SCREEN_WIDTH,
        2 * HALF_SCREEN_HEIGHT == SCREEN_HEIGHT,
        2 * HALF_WALL_THICKNESS == WALL_THICKNESS,
        2 * HALF_PADDLE_HEIGHT == PADDLE_HEIGHT,
        2 * HALF_PUCK_HEIGHT == PUCK_HEIGHT,
        LINE_SPACING * NUM_DOTTED_LINES == SCREEN_HEIGHT,
        100 * AI_PADDLE_SPEED == AI_PADDLE_BASE_SPEED * DIFFICULTY,
        BOTTOM_BOUND == -TOP_BOUND,
        BOTTOM_BOUND < 0 < TOP_BOUND,
        BOTTOM_WALL_Y < BOTTOM_BOUND,
        TOP_BOUND < TOP_WALL_Y,
{
}

} // verus!
