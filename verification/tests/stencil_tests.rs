use horn_shunck_rs::stencil::{axis_neighbors, clamped_stencil, derivative_span};

#[test]
fn axis_neighbors_clamp_at_both_ends() {
    assert_eq!(axis_neighbors(0, 5, 1), (0, 1));
    assert_eq!(axis_neighbors(2, 5, 1), (1, 3));
    assert_eq!(axis_neighbors(4, 5, 1), (3, 4));
    assert_eq!(axis_neighbors(1, 5, 2), (0, 3));
    assert_eq!(axis_neighbors(3, 5, 2), (1, 4));
    assert_eq!(axis_neighbors(0, 1, 2), (0, 0));
}

#[test]
fn axis_neighbors_near_usize_max() {
    assert_eq!(axis_neighbors(usize::MAX - 1, usize::MAX, 2), (usize::MAX - 3, usize::MAX - 1));
}

#[test]
fn derivative_span_cases() {
    assert_eq!(derivative_span(0, 1), 0);
    assert_eq!(derivative_span(0, 2), 1);
    assert_eq!(derivative_span(1, 2), 1);
    assert_eq!(derivative_span(0, 4), 1);
    assert_eq!(derivative_span(2, 4), 2);
    assert_eq!(derivative_span(3, 4), 1);
}

#[test]
fn clamped_stencil_at_corner() {
    let s = clamped_stencil(0, 0, 3, 4);
    assert_eq!(s.center, (0, 0));
    assert_eq!(s.above, (0, 0));
    assert_eq!(s.below, (1, 0));
    assert_eq!(s.left, (0, 0));
    assert_eq!(s.right, (0, 1));
    assert_eq!(s.above_left, (0, 0));
    assert_eq!(s.below_right, (1, 1));
}

#[test]
fn clamped_stencil_inside_and_far_corner() {
    let s = clamped_stencil(1, 2, 3, 4);
    assert_eq!(s.above_right, (0, 3));
    assert_eq!(s.below_left, (2, 1));
    let t = clamped_stencil(2, 3, 3, 4);
    assert_eq!(t.below, (2, 3));
    assert_eq!(t.right, (2, 3));
    assert_eq!(t.above_left, (1, 2));
}

#[test]
fn clamped_stencil_centre_outside_image() {
    let s = clamped_stencil(5, 1, 3, 4);
    assert_eq!(s.center, (2, 1));
    assert_eq!(s.above, (2, 1));
    assert_eq!(s.below, (2, 1));
    assert_eq!(s.left, (2, 0));
    assert_eq!(s.right, (2, 2));
    let t = clamped_stencil(3, 4, 3, 4);
    assert_eq!(t.above, (2, 3));
    assert_eq!(t.above_left, (2, 3));
    let u = clamped_stencil(0, 0, 1, 1);
    assert_eq!(u.below_right, (0, 0));
}
