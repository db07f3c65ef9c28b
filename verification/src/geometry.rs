//! Integer geometry for the staggered hex layout: conversions between
//! world-space positions and axial hex coordinates, camera wrapping onto
//! a toroidal map, and a rectangle helper for outlining hex regions.
//!
//! World space is measured in integer units. One consistent geometry is
//! used throughout: columns sit `HEX_HORIZ_SPACING` apart, rows sit
//! `HEX_HEIGHT` apart, and each column is shifted upward by half a tile
//! height per column index.

use vstd::prelude::*;

verus! {

use crate::hexmap::{wrap_coord, wrap_hex_pos, HexPos};
use vstd::arithmetic::div_mod::{
    lemma_basic_div, lemma_fundamental_div_mod, lemma_hoist_over_denominator,
    lemma_mod_division_less_than_divisor,
};

/// Horizontal distance between the centers of adjacent columns.
pub const HEX_HORIZ_SPACING: i64 = 30;

/// Vertical distance between the centers of adjacent rows.
pub const HEX_HEIGHT: i64 = 34;

/// Vertical stagger of each column relative to the previous one.
pub const HEX_HALF_HEIGHT: i64 = 17;

/// Largest world coordinate the conversions accept, comfortably wider
/// than any map a camera can reach.
pub const WORLD_LIMIT: i64 = 0x4000_0000;

/// `a / b` rounded to the nearest integer, ties rounding up. Stated as a
/// single Euclidean division: `floor(a / b + 1/2) == floor((2a + b) / 2b)`.
pub open spec fn round_div(a: int, b: int) -> int
    recommends
        b > 0,
{
    (2 * a + b) / (2 * b)
}

/// Divides and rounds to nearest, ties up. The second ensures clause is
/// the floor characterization, which lets callers bound the quotient by
/// linear arithmetic once `b` is a known constant.
fn round_to_nearest(a: i64, b: i64) -> (q: i64)
    requires
        1 <= b <= 64,
        -0x8000_0000 <= a <= 0x8000_0000,
    ensures
        q == round_div(a as int, b as int),
        2 * b * q <= 2 * a + b < 2 * b * (q + 1),
{
    let num: i64 = 2 * a + b;
    let den: i64 = 2 * b;
    // Shift the numerator into nonnegative territory by a whole multiple
    // of the divisor, divide there, and shift back.
    let shift: i64 = 0x1_0000_0000;
    let big: u64 = (num + shift * den) as u64;
    let quot: u64 = big / (den as u64);
    let q: i64 = (quot as i64) - shift;
    proof {
        lemma_hoist_over_denominator(num as int, shift as int, den as nat);
        lemma_fundamental_div_mod(big as int, den as int);
        lemma_mod_division_less_than_divisor(big as int, den as int);
        let rem = big as int % den as int;
        assert(2 * b * q <= 2 * a + b < 2 * b * (q + 1)) by (nonlinear_arith)
            requires
                big == den * (big as int / den as int) + rem,
                0 <= rem < den,
                den == 2 * b,
                num == 2 * a + b,
                big == num + shift * den,
                q == big as int / den as int - shift,
        ;
    }
    q
}

/// The column whose center is horizontally nearest to world coordinate `x`.
pub open spec fn hex_q_at(x: int) -> int {
    round_div(x, HEX_HORIZ_SPACING as int)
}

/// The row whose center is nearest to `(x, y)` once the stagger of the
/// nearest column is taken out.
pub open spec fn hex_r_at(x: int, y: int) -> int {
    round_div(y - HEX_HALF_HEIGHT * hex_q_at(x), HEX_HEIGHT as int)
}

/// The world-space x coordinate of the center of column `q`.
pub open spec fn world_x_at(q: int) -> int {
    HEX_HORIZ_SPACING * q
}

/// The world-space y coordinate of the center of the tile at `(q, r)`.
pub open spec fn world_y_at(q: int, r: int) -> int {
    HEX_HALF_HEIGHT * q + HEX_HEIGHT * r
}

/// Maps a world-space position to the axial coordinate of the nearest
/// tile center under the staggered layout. Ties at exact half-spacing
/// boundaries round toward positive infinity.
pub fn pos_to_hex_pos(x: i64, y: i64) -> (pos: HexPos)
    requires
        -WORLD_LIMIT <= x <= WORLD_LIMIT,
        -WORLD_LIMIT <= y <= WORLD_LIMIT,
    ensures
        pos.q == hex_q_at(x as int),
        pos.r == hex_r_at(x as int, y as int),
{
    let q: i64 = round_to_nearest(x, HEX_HORIZ_SPACING);
    let vert_offset: i64 = q * HEX_HALF_HEIGHT;
    let r: i64 = round_to_nearest(y - vert_offset, HEX_HEIGHT);
    HexPos { q: q as i32, r: r as i32 }
}

/// Maps an axial coordinate back to the world-space center of its tile:
/// the inverse of `pos_to_hex_pos` on tile centers.
pub fn hex_pos_to_pos(pos: HexPos) -> (p: (i64, i64))
    ensures
        p.0 == world_x_at(pos.q as int),
        p.1 == world_y_at(pos.q as int, pos.r as int),
{
    let x: i64 = HEX_HORIZ_SPACING * (pos.q as i64);
    let y: i64 = HEX_HALF_HEIGHT * (pos.q as i64) + HEX_HEIGHT * (pos.r as i64);
    (x, y)
}

/// Converting an axial coordinate to the world-space center of its tile
/// and back returns the same coordinate. Tile centers never sit on a
/// rounding tie boundary, so the round trip is exact for every axial
/// coordinate.
pub proof fn lemma_hex_pos_round_trip(pos: HexPos)
    ensures
        hex_q_at(world_x_at(pos.q as int)) == pos.q,
        hex_r_at(world_x_at(pos.q as int), world_y_at(pos.q as int, pos.r as int)) == pos.r,
{
    let q = pos.q as int;
    let r = pos.r as int;
    assert(hex_q_at(world_x_at(q)) == (30 + q * 60) / 60);
    lemma_hoist_over_denominator(30, q, 60);
    lemma_basic_div(30, 60);
    assert(world_y_at(q, r) - 17 * hex_q_at(world_x_at(q)) == 34 * r);
    assert(hex_r_at(world_x_at(q), world_y_at(q, r)) == (34 + r * 68) / 68);
    lemma_hoist_over_denominator(34, r, 68);
    lemma_basic_div(34, 68);
}

/// Wraps a world-space position onto a toroidal map: if the nearest tile
/// lies outside the map, the position is translated by whole tiles so
/// that its nearest tile becomes the wrapped one, keeping the offset from
/// the tile center unchanged. An in-range position comes back as it was.
pub fn wrap_world_pos(x: i64, y: i64, map_width: u32, map_height: u32) -> (p: (i64, i64))
    requires
        1 <= map_width <= i32::MAX as u32,
        1 <= map_height <= i32::MAX as u32,
        -WORLD_LIMIT <= x <= WORLD_LIMIT,
        -WORLD_LIMIT <= y <= WORLD_LIMIT,
    ensures
        ({
            let q = hex_q_at(x as int);
            let r = hex_r_at(x as int, y as int);
            let wq = wrap_coord(q, map_width as int);
            let wr = wrap_coord(r, map_height as int);
            if q == wq && r == wr {
                p == (x, y)
            } else {
                p.0 == x + world_x_at(wq) - world_x_at(q) && p.1 == y + world_y_at(wq, wr)
                    - world_y_at(q, r)
            }
        }),
{
    let hex_pos = pos_to_hex_pos(x, y);
    let wrapped_pos = wrap_hex_pos(hex_pos, map_width, map_height);
    if hex_pos == wrapped_pos {
        (x, y)
    } else {
        let snapped = hex_pos_to_pos(hex_pos);
        let target = hex_pos_to_pos(wrapped_pos);
        (x + target.0 - snapped.0, y + target.1 - snapped.1)
    }
}

/// An inclusive axial-aligned rectangle of hex coordinates, used to
/// outline the area to be covered in hex visuals.
#[derive(Debug, Copy, Clone, Eq, PartialEq, Structural)]
pub struct HexRect {
    pub q: i32,
    pub r: i32,
    pub width: i32,
    pub height: i32,
}

impl HexRect {
    /// A rectangle anchored at `(q, r)` spanning `width` columns and
    /// `height` rows beyond the anchor, both ends inclusive.
    pub fn new(q: i32, r: i32, width: i32, height: i32) -> (rect: HexRect)
        ensures
            rect == (HexRect { q, r, width, height }),
    {
        HexRect { q, r, width, height }
    }

    /// Whether `(q, r)` lies inside this rectangle, borders included.
    pub fn is_in_rect(&self, q: i32, r: i32) -> (inside: bool)
        ensures
            inside == (self.q <= q <= self.q + self.width && self.r <= r <= self.r + self.height),
    {
        let q64 = q as i64;
        let r64 = r as i64;
        self.q as i64 <= q64 && q64 <= self.q as i64 + self.width as i64 && self.r as i64 <= r64
            && r64 <= self.r as i64 + self.height as i64
    }

    /// Whether `(q, r)` lies inside this rectangle with `padding` extra
    /// tiles before the anchor, so that hexes just offscreen are still
    /// drawn and quick camera movement shows no gaps at the leading edges.
    /// The span grows by the same amount, so the far borders stay put.
    pub fn is_in_padded_rect(&self, q: i32, r: i32, padding: i32) -> (inside: bool)
        ensures
            inside == (self.q - padding <= q <= self.q + self.width && self.r - padding <= r
                <= self.r + self.height),
    {
        let q64 = q as i64;
        let r64 = r as i64;
        let pad = padding as i64;
        self.q as i64 - pad <= q64 && q64 <= self.q as i64 - pad + (self.width as i64 + pad)
            && self.r as i64 - pad <= r64 && r64 <= self.r as i64 - pad + (self.height as i64 + pad)
    }
}

} // verus!
