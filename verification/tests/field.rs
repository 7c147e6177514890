use mandelbrot::compute;
use mandelbrot::field::map_coord;
use mandelbrot::Fixed;
use mandelbrot::PlaneRect;

fn default_rect() -> PlaneRect {
    PlaneRect {
        x_min: Fixed::from_int(-2),
        x_max: Fixed::from_int(1),
        y_min: Fixed::from_int(-1),
        y_max: Fixed::from_int(1),
    }
}

#[test]
fn single_cell_zero_budget() {
    let field = compute(0, &default_rect(), 1, 1);
    assert_eq!(field, vec![vec![0]]);
}

#[test]
fn boundary_pixel_never_escapes() {
    // pixel (0, 512) of a 1024 x 1024 grid over x in [-2, 1], y in [-1, 1]
    // samples c = -2 + 0i, a boundary point that never escapes
    let field = compute(100, &default_rect(), 1024, 1024);
    assert_eq!(field.len(), 1024);
    assert_eq!(field[0].len(), 1024);
    assert_eq!(field[0][512], 100);
}

#[test]
fn far_point_counts_zero_under_zero_budget() {
    // pixel (0, 0) of this rectangle samples c = 5 + 5i, far outside the set
    let rect = PlaneRect {
        x_min: Fixed::from_int(5),
        x_max: Fixed::from_int(6),
        y_min: Fixed::from_int(5),
        y_max: Fixed::from_int(6),
    };
    let cx = map_coord(rect.x_min, rect.x_max, 0, 1);
    let cy = map_coord(rect.y_min, rect.y_max, 0, 1);
    assert_eq!(cx, Fixed::from_int(5));
    assert_eq!(cy, Fixed::from_int(5));
    let field = compute(0, &rect, 1, 1);
    assert_eq!(field, vec![vec![0]]);
}

#[test]
fn field_shape_matches_dimensions() {
    let field = compute(3, &default_rect(), 4, 2);
    assert_eq!(field.len(), 4);
    for column in &field {
        assert_eq!(column.len(), 2);
    }
}

#[test]
fn zero_dimension_yields_empty_field() {
    let empty_width = compute(10, &default_rect(), 0, 5);
    assert!(empty_width.is_empty());
    let empty_height = compute(10, &default_rect(), 5, 0);
    assert_eq!(empty_height.len(), 5);
    for column in &empty_height {
        assert!(column.is_empty());
    }
}

#[test]
fn cells_stay_within_budget() {
    let field = compute(5, &default_rect(), 8, 8);
    for column in &field {
        for &cell in column {
            assert!(cell <= 5);
        }
    }
}

#[test]
fn field_is_indexed_x_then_y() {
    // over x in [-2, 2], y in [0, 4] with a 2 x 2 grid the sample points are
    // c(x, y): c(0,0) = -2, c(1,0) = 0, c(0,1) = -2+2i, c(1,1) = 2i
    let rect = PlaneRect {
        x_min: Fixed::from_int(-2),
        x_max: Fixed::from_int(2),
        y_min: Fixed::from_int(0),
        y_max: Fixed::from_int(4),
    };
    let field = compute(9, &rect, 2, 2);
    assert_eq!(field, vec![vec![9, 1], vec![9, 2]]);
}

#[test]
fn repeated_computation_is_identical() {
    let first = compute(25, &default_rect(), 16, 16);
    let second = compute(25, &default_rect(), 16, 16);
    assert_eq!(first, second);
}

#[test]
fn mapping_interpolates_exactly() {
    let r = default_rect();
    // index 0 maps to the lower bound
    assert_eq!(map_coord(r.x_min, r.x_max, 0, 1024), Fixed::from_int(-2));
    // a quarter of the way from -2 to 1 is -1.25, i.e. -5 * 2^30 raw units
    assert_eq!(map_coord(r.x_min, r.x_max, 256, 1024).raw, -5368709120);
    // halfway from -1 to 1 is 0
    assert_eq!(map_coord(r.y_min, r.y_max, 512, 1024), Fixed::from_int(0));
}
