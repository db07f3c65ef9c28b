use hexsim::geometry::{
    hex_pos_to_pos, pos_to_hex_pos, wrap_world_pos, HexRect, HEX_HEIGHT, HEX_HORIZ_SPACING,
};
use hexsim::hexmap::HexPos;

fn pos(q: i32, r: i32) -> HexPos {
    HexPos { q, r }
}

#[test]
fn round_trip_on_tile_centers() {
    for q in -20..20 {
        for r in -20..20 {
            let p = pos(q * 7, r * 5 - q);
            let (x, y) = hex_pos_to_pos(p);
            assert_eq!(pos_to_hex_pos(x, y), p);
        }
    }
}

#[test]
fn tile_center_of_origin() {
    assert_eq!(hex_pos_to_pos(pos(0, 0)), (0, 0));
    assert_eq!(hex_pos_to_pos(pos(1, 0)), (HEX_HORIZ_SPACING, HEX_HEIGHT / 2));
    assert_eq!(hex_pos_to_pos(pos(0, 1)), (0, HEX_HEIGHT));
    assert_eq!(hex_pos_to_pos(pos(2, 3)), (60, 136));
}

#[test]
fn nearby_points_snap_to_the_center() {
    let (x, y) = hex_pos_to_pos(pos(4, -3));
    for dx in -14i64..=14 {
        for dy in -16i64..=16 {
            if dx.abs() < HEX_HORIZ_SPACING / 2 - 1 && dy.abs() < HEX_HEIGHT / 2 - 1 {
                assert_eq!(pos_to_hex_pos(x + dx, y + dy), pos(4, -3));
            }
        }
    }
}

#[test]
fn wrap_world_pos_keeps_in_range_positions() {
    let (x, y) = hex_pos_to_pos(pos(5, 7));
    assert_eq!(wrap_world_pos(x + 3, y - 2, 16, 16), (x + 3, y - 2));
}

#[test]
fn wrap_world_pos_translates_by_whole_tiles() {
    // The nearest tile is (16, 0), one column past the right edge of a
    // sixteen-wide map, so the position is pulled back to column zero
    // keeping its offset from the tile center.
    assert_eq!(wrap_world_pos(483, 272, 16, 16), (3, 0));
    // Column -1 wraps to column 15.
    let (x15, y15) = hex_pos_to_pos(pos(15, 0));
    assert_eq!(
        wrap_world_pos(-HEX_HORIZ_SPACING + 1, -HEX_HEIGHT / 2, 16, 16),
        (x15 + 1, y15),
    );
}

#[test]
fn rect_contains_its_inclusive_borders() {
    let rect = HexRect::new(2, 3, 4, 5);
    assert!(rect.is_in_rect(2, 3));
    assert!(rect.is_in_rect(6, 8));
    assert!(rect.is_in_rect(4, 5));
    assert!(!rect.is_in_rect(1, 3));
    assert!(!rect.is_in_rect(7, 8));
    assert!(!rect.is_in_rect(2, 9));
}

#[test]
fn padded_rect_extends_before_the_anchor() {
    let rect = HexRect::new(2, 3, 4, 5);
    assert!(rect.is_in_padded_rect(0, 1, 2));
    assert!(rect.is_in_padded_rect(6, 8, 2));
    assert!(!rect.is_in_padded_rect(-1, 3, 2));
    assert!(!rect.is_in_padded_rect(7, 8, 2));
}
