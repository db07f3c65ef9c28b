//! Axial hex coordinates, toroidal wrap-around addressing, and the
//! fixed-size rectangular tile storage indexed by those coordinates.

use vstd::prelude::*;

verus! {

use crate::ErrorKind;
use vstd::arithmetic::div_mod::{
    lemma_fundamental_div_mod, lemma_mod_add_multiples_vanish,
    lemma_mod_division_less_than_divisor, lemma_mod_multiples_vanish, lemma_small_mod,
};

/// An axial coordinate on a hexagonal grid: column `q`, row `r`.
/// Carries no bounds of its own; maps reject coordinates outside their
/// extent, and `wrap_hex_pos` folds any coordinate onto a map's extent.
#[derive(Debug, Copy, Clone, Eq, PartialEq, Hash, Structural)]
pub struct HexPos {
    pub q: i32,
    pub r: i32,
}

/// Wrapping coordinate `c` onto an axis of size `n` yields the Euclidean
/// remainder of `c` by `n`, which lies in `[0, n)` whenever `n > 0`.
pub open spec fn wrap_coord(c: int, n: int) -> int
    recommends
        n > 0,
{
    c % n
}

/// The remainder identity behind the negative branch of `wrap_axis`:
/// counting `|c|` places backwards from the end of the axis lands on the
/// Euclidean remainder.
proof fn lemma_wrap_negative(c: int, n: int)
    requires
        c < 0,
        n > 0,
    ensures
        wrap_coord(c, n) == (n - 1) - ((-c - 1) % n),
{
    let a = -c - 1;
    let m = a % n;
    lemma_mod_division_less_than_divisor(a, n);
    lemma_fundamental_div_mod(a, n);
    assert(c == n * (-(a / n) - 1) + (n - 1 - m)) by (nonlinear_arith)
        requires a == n * (a / n) + m && c == -a - 1;
    lemma_mod_multiples_vanish(-(a / n) - 1, n - 1 - m, n);
    lemma_small_mod((n - 1 - m) as nat, n as nat);
}

/// Wraps one coordinate onto one axis of a toroidal map.
fn wrap_axis(c: i32, n: u32) -> (w: i32)
    requires
        1 <= n <= i32::MAX as u32,
    ensures
        w == wrap_coord(c as int, n as int),
{
    let nw: i64 = n as i64;
    let cw: i64 = c as i64;
    proof {
        lemma_mod_division_less_than_divisor(cw as int, nw as int);
    }
    let w: i64 = if cw >= nw {
        cw % nw
    } else if cw < 0 {
        proof {
            lemma_wrap_negative(cw as int, nw as int);
            lemma_mod_division_less_than_divisor(-cw - 1, nw as int);
        }
        (nw - 1) - ((-cw - 1) % nw)
    } else {
        proof {
            lemma_small_mod(cw as nat, nw as nat);
        }
        cw
    };
    w as i32
}

/// Folds an arbitrary axial coordinate onto a `map_width` by `map_height`
/// toroidal map: each axis wraps independently, so the result addresses a
/// valid tile no matter how far outside the map the input lies.
pub fn wrap_hex_pos(pos: HexPos, map_width: u32, map_height: u32) -> (wrapped: HexPos)
    requires
        1 <= map_width <= i32::MAX as u32,
        1 <= map_height <= i32::MAX as u32,
    ensures
        wrapped.q == wrap_coord(pos.q as int, map_width as int),
        wrapped.r == wrap_coord(pos.r as int, map_height as int),
        0 <= wrapped.q < map_width,
        0 <= wrapped.r < map_height,
{
    proof {
        lemma_mod_division_less_than_divisor(pos.q as int, map_width as int);
        lemma_mod_division_less_than_divisor(pos.r as int, map_height as int);
    }
    HexPos { q: wrap_axis(pos.q, map_width), r: wrap_axis(pos.r, map_height) }
}

/// The mathematical content of a `HexMap`: its extent and the row-major
/// sequence of its tiles.
#[verifier::ext_equal]
pub ghost struct HexMapView<T> {
    pub width: nat,
    pub height: nat,
    pub tiles: Seq<T>,
}

impl<T> HexMapView<T> {
    /// A map is well formed when it holds exactly one tile per coordinate
    /// of its extent.
    pub open spec fn wf(self) -> bool {
        self.tiles.len() == self.width * self.height
    }

    /// Whether `pos` addresses a tile of this map without wrapping.
    pub open spec fn in_bounds(self, pos: HexPos) -> bool {
        0 <= pos.q < self.width && 0 <= pos.r < self.height
    }

    /// The row-major position of `pos` in the tile sequence.
    pub open spec fn index_of(self, pos: HexPos) -> int {
        pos.q + pos.r * self.width
    }

    /// The tile stored at `pos`.
    pub open spec fn tile_at(self, pos: HexPos) -> T
        recommends
            self.wf(),
            self.in_bounds(pos),
    {
        self.tiles[self.index_of(pos)]
    }
}

/// A row-major index computed from in-bounds coordinates addresses a tile
/// of a well-formed map.
proof fn lemma_row_major_in_range(q: int, r: int, w: int, h: int)
    by (nonlinear_arith)
    requires
        0 <= q < w,
        0 <= r < h,
    ensures
        0 <= q + r * w < w * h,
{
}

/// Fixed-size rectangular tile storage addressed by axial coordinates.
/// Rows are laid out contiguously: the tile at `(q, r)` is held at index
/// `q + r * width`. A map is created once with an exact count of tiles and
/// is never resized.
#[derive(Debug)]
pub struct HexMap<T> {
    width: usize,
    height: usize,
    tiles: Vec<T>,
}

impl<T> View for HexMap<T> {
    type V = HexMapView<T>;

    closed spec fn view(&self) -> HexMapView<T> {
        HexMapView { width: self.width as nat, height: self.height as nat, tiles: self.tiles@ }
    }
}

impl<T> HexMap<T> {
    /// The number of columns.
    pub fn width(&self) -> (w: usize)
        ensures
            w == self@.width,
    {
        self.width
    }

    /// The number of rows.
    pub fn height(&self) -> (h: usize)
        ensures
            h == self@.height,
    {
        self.height
    }

    /// Builds a map from exactly `width * height` tiles, taken in row-major
    /// order. Any other count is a caller defect and is rejected as
    /// `ItemCountMismatch`, leaving nothing constructed.
    pub fn new(width: usize, height: usize, tiles: Vec<T>) -> (result: Result<HexMap<T>, ErrorKind>)
        ensures
            tiles@.len() == width * height ==> (result matches Ok(m) && m@ == (HexMapView {
                width: width as nat,
                height: height as nat,
                tiles: tiles@,
            }) && m@.wf()),
            tiles@.len() != width * height ==> result matches Err(ErrorKind::ItemCountMismatch),
    {
        let count = tiles.len();
        match width.checked_mul(height) {
            Some(expected) if expected == count => Ok(HexMap { width, height, tiles }),
            _ => Err(ErrorKind::ItemCountMismatch),
        }
    }

    /// Borrows the tile at `pos`. The coordinate must already be in bounds;
    /// callers wrap raw coordinates with `wrap_hex_pos` first, and an
    /// unwrapped coordinate is rejected as `OutOfBounds`.
    pub fn get(&self, pos: HexPos) -> (result: Result<&T, ErrorKind>)
        requires
            self@.wf(),
        ensures
            self@.in_bounds(pos) ==> (result matches Ok(t) && *t == self@.tile_at(pos)),
            !self@.in_bounds(pos) ==> result matches Err(ErrorKind::OutOfBounds),
    {
        if pos.q >= 0 && pos.r >= 0 && (pos.q as usize) < self.width && (pos.r as usize)
            < self.height {
            proof {
                assert(self.tiles.len() <= usize::MAX);
                lemma_row_major_in_range(pos.q as int, pos.r as int, self.width as int,
                    self.height as int);
            }
            let index = pos.q as usize + (pos.r as usize) * self.width;
            Ok(&self.tiles[index])
        } else {
            Err(ErrorKind::OutOfBounds)
        }
    }

    /// The number of tiles held, `width * height` for a well-formed map.
    pub(crate) fn tile_count(&self) -> (n: usize)
        ensures
            n == self@.tiles.len(),
    {
        self.tiles.len()
    }

    /// Borrows the tile at row-major index `i` directly.
    pub(crate) fn flat_get(&self, i: usize) -> (t: &T)
        requires
            i < self@.tiles.len(),
        ensures
            *t == self@.tiles[i as int],
    {
        &self.tiles[i]
    }

    /// Replaces the tile at row-major index `i` directly.
    pub(crate) fn flat_set(&mut self, i: usize, tile: T)
        requires
            i < old(self)@.tiles.len(),
        ensures
            final(self)@.width == old(self)@.width,
            final(self)@.height == old(self)@.height,
            final(self)@.tiles == old(self)@.tiles.update(i as int, tile),
    {
        self.tiles[i] = tile;
    }

    /// Mutably borrows the tile at `pos`, under the same bounds discipline
    /// as `get`: only the addressed tile can change through the returned
    /// borrow, and an out-of-bounds coordinate leaves the map untouched.
    pub fn get_mut(&mut self, pos: HexPos) -> (result: Result<&mut T, ErrorKind>)
        requires
            old(self)@.wf(),
        ensures
            final(self)@.wf(),
            final(self)@.width == old(self)@.width,
            final(self)@.height == old(self)@.height,
            old(self)@.in_bounds(pos) ==> (result matches Ok(t) && *t == old(self)@.tile_at(pos)
                && final(self)@.tiles == old(self)@.tiles.update(
                    old(self)@.index_of(pos),
                    *final(t),
                )),
            !old(self)@.in_bounds(pos) ==> (result matches Err(ErrorKind::OutOfBounds)
                && final(self)@.tiles == old(self)@.tiles),
    {
        if pos.q >= 0 && pos.r >= 0 && (pos.q as usize) < self.width && (pos.r as usize)
            < self.height {
            proof {
                assert(self.tiles.len() <= usize::MAX);
                lemma_row_major_in_range(pos.q as int, pos.r as int, self.width as int,
                    self.height as int);
            }
            let index = pos.q as usize + (pos.r as usize) * self.width;
            Ok(&mut self.tiles[index])
        } else {
            Err(ErrorKind::OutOfBounds)
        }
    }
}

/// Toroidal wrapping is a total fold onto `[0, n)`: it lies in range, it
/// leaves in-range coordinates alone, it is periodic with period `n`, and
/// one step before the origin lands on the last valid coordinate.
pub proof fn lemma_wrap_coord_properties(c: int, n: int)
    requires
        n > 0,
    ensures
        0 <= wrap_coord(c, n) < n,
        0 <= c < n ==> wrap_coord(c, n) == c,
        wrap_coord(c + n, n) == wrap_coord(c, n),
        wrap_coord(-1, n) == n - 1,
{
    lemma_mod_division_less_than_divisor(c, n);
    if 0 <= c < n {
        lemma_small_mod(c as nat, n as nat);
    }
    lemma_mod_add_multiples_vanish(c, n);
    lemma_wrap_negative(-1, n);
    lemma_small_mod(0nat, n as nat);
}

} // verus!
