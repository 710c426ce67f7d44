use vstd::prelude::*;

verus! {

/// Half-width of the square around the ship in which no meteoroid is placed.
pub const SAFE_DISTANCE: i64 = 30;

/// How many random draws a placement makes before it falls back to a
/// deterministic spot.
pub const PLACEMENT_TRIES: u32 = 100;

/// The playing field: every coordinate in `[min_x, max_x] x [min_y, max_y]`.
#[derive(Clone, Copy, Debug)]
pub struct Arena {
    pub min_x: i64,
    pub max_x: i64,
    pub min_y: i64,
    pub max_y: i64,
}

/// `(x, y)` lies in the arena, borders included.
pub open spec fn in_arena(a: Arena, x: int, y: int) -> bool {
    a.min_x <= x <= a.max_x && a.min_y <= y <= a.max_y
}

/// `(x, y)` lies outside the exclusion square around `(px, py)` on both axes.
pub open spec fn clear_of(px: int, py: int, x: int, y: int) -> bool {
    (x > px + SAFE_DISTANCE || x < px - SAFE_DISTANCE) && (y > py + SAFE_DISTANCE || y < py
        - SAFE_DISTANCE)
}

/// The arena has room for a spot clear of `(px, py)` on both axes.
pub open spec fn has_clear_spot(a: Arena, px: int, py: int) -> bool {
    (a.min_x < px - SAFE_DISTANCE || a.max_x > px + SAFE_DISTANCE) && (a.min_y < py
        - SAFE_DISTANCE || a.max_y > py + SAFE_DISTANCE)
}

impl Arena {
    /// Each axis holds more than one coordinate.
    pub open spec fn wf(&self) -> bool {
        self.min_x < self.max_x && self.min_y < self.max_y
    }

    /// The arena of a window of `width` by `height` centred on the origin.
    pub fn from_window(width: u32, height: u32) -> (r: Arena)
        requires
            width >= 2,
            height >= 2,
        ensures
            r.wf(),
            r.max_x == width / 2,
            r.min_x == -(width / 2),
            r.max_y == height / 2,
            r.min_y == -(height / 2),
    {
        let hw = (width / 2) as i64;
        let hh = (height / 2) as i64;
        Arena { min_x: -hw, max_x: hw, min_y: -hh, max_y: hh }
    }

    /// Whether `(x, y)` lies in the arena.
    pub fn contains(&self, x: i64, y: i64) -> (r: bool)
        ensures
            r == in_arena(*self, x as int, y as int),
    {
        self.min_x <= x && x <= self.max_x && self.min_y <= y && y <= self.max_y
    }
}

/// Relies on rand::Rng::gen_range over `lo..hi` with the thread's generator:
/// the result lies in `[lo, hi)`; it panics on an empty range.
#[verifier::external_body]
fn random_in(lo: i64, hi: i64) -> (r: i64)
    requires
        lo < hi,
    ensures
        lo <= r < hi,
{
    rand::Rng::gen_range(&mut rand::thread_rng(), lo..hi)
}

/// Whether `(x, y)` is clear of `(px, py)`.
pub fn is_clear_of(px: i64, py: i64, x: i64, y: i64) -> (r: bool)
    ensures
        r == clear_of(px as int, py as int, x as int, y as int),
{
    let (px, py, x, y) = (px as i128, py as i128, x as i128, y as i128);
    let d = SAFE_DISTANCE as i128;
    (x > px + d || x < px - d) && (y > py + d || y < py - d)
}

/// The spot used when every random draw fell too close to `(px, py)`: a
/// corner of the arena, on each axis the side with room.
pub fn fallback_spot(a: Arena, px: i64, py: i64) -> (r: (i64, i64))
    requires
        a.wf(),
    ensures
        in_arena(a, r.0 as int, r.1 as int),
        has_clear_spot(a, px as int, py as int) ==> clear_of(
            px as int,
            py as int,
            r.0 as int,
            r.1 as int,
        ),
{
    let d = SAFE_DISTANCE as i128;
    let x = if (a.min_x as i128) < (px as i128) - d {
        a.min_x
    } else {
        a.max_x
    };
    let y = if (a.min_y as i128) < (py as i128) - d {
        a.min_y
    } else {
        a.max_y
    };
    (x, y)
}

/// A random spot in the arena clear of `(px, py)`, drawn at most
/// `PLACEMENT_TRIES` times; after that the fallback spot.
///
/// The spot lies in the arena, and clear of `(px, py)` whenever the arena has
/// room for such a spot.
pub fn place_clear_of(a: Arena, px: i64, py: i64) -> (r: (i64, i64))
    requires
        a.wf(),
    ensures
        in_arena(a, r.0 as int, r.1 as int),
        has_clear_spot(a, px as int, py as int) ==> clear_of(
            px as int,
            py as int,
            r.0 as int,
            r.1 as int,
        ),
{
    let mut tries: u32 = 0;
    while tries < PLACEMENT_TRIES
        invariant
            a.wf(),
        decreases PLACEMENT_TRIES - tries,
    {
        let x = random_in(a.min_x, a.max_x);
        let y = random_in(a.min_y, a.max_y);
        if is_clear_of(px, py, x, y) {
            return (x, y);
        }
        tries += 1;
    }
    fallback_spot(a, px, py)
}

} // verus!
