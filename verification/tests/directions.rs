//! Tests of the direction model: indexing and isometric step lengths.

use fractal_forest::FracCoord;
use fractal_forest::GrowthDirection;
use fractal_forest::direction::pow2_i64;
use fractal_forest::direction::segment_end;

#[test]
fn direction_indices_round_trip() {
    for i in 0u8..8 {
        let d = GrowthDirection::from_index(i);
        assert_eq!(d.index(), i);
    }
    assert_eq!(GrowthDirection::Up.index(), 2);
    assert_eq!(GrowthDirection::Left.index(), 0);
    assert_eq!(GrowthDirection::LowerLeft.index(), 7);
}

#[test]
fn pow2_small_values() {
    assert_eq!(pow2_i64(0), 1);
    assert_eq!(pow2_i64(1), 2);
    assert_eq!(pow2_i64(10), 1024);
}

#[test]
fn cardinal_steps_move_one_axis() {
    let o = FracCoord { whole: 0, diag: 0 };
    let (ex, ey) = segment_end(o, o, 2, GrowthDirection::Right);
    assert_eq!(ex, FracCoord { whole: 4, diag: 0 });
    assert_eq!(ey, o);
    let (ex, ey) = segment_end(o, o, 2, GrowthDirection::Down);
    assert_eq!(ex, o);
    assert_eq!(ey, FracCoord { whole: 4, diag: 0 });
}

#[test]
fn diagonal_steps_move_half_units_on_both_axes() {
    let o = FracCoord { whole: 0, diag: 0 };
    let (ex, ey) = segment_end(o, o, 3, GrowthDirection::UpperRight);
    assert_eq!(ex, FracCoord { whole: 0, diag: 8 });
    assert_eq!(ey, FracCoord { whole: 0, diag: -8 });
}

#[test]
fn all_steps_share_one_euclidean_length() {
    // Twice the squared length of a step at level 2 is 2 * 4^2 = 32 for every
    // direction, cardinal or diagonal: the diagonal per-axis component is one
    // of `diag`, worth 1/sqrt(2) real units.
    let o = FracCoord { whole: 0, diag: 0 };
    for i in 0u8..8 {
        let d = GrowthDirection::from_index(i);
        let (ex, ey) = segment_end(o, o, 2, d);
        let len_sq_x2 = 2 * (ex.whole * ex.whole + ey.whole * ey.whole) + ex.diag * ex.diag
            + ey.diag * ey.diag;
        assert_eq!(len_sq_x2, 32, "direction {}", i);
    }
}
