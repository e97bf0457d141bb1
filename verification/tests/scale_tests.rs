use horn_shunck_rs::grid::Grid;
use horn_shunck_rs::scale::{downscale_stencil, downscaled_len, expand_blocks, expand_pixel};

#[test]
fn downscaled_len_values() {
    assert_eq!(downscaled_len(3), 1);
    assert_eq!(downscaled_len(5), 1);
    assert_eq!(downscaled_len(6), 2);
    assert_eq!(downscaled_len(9), 3);
    assert_eq!(downscaled_len(10), 3);
    assert_eq!(downscaled_len(1080), 360);
}

#[test]
fn downscale_stencil_centres_on_blocks() {
    let s = downscale_stencil(1, 2, 7, 9);
    assert_eq!(s.center, (4, 7));
    assert_eq!(s.above_left, (3, 6));
    assert_eq!(s.below_right, (5, 8));
    assert_eq!(s.below, (5, 7));
    assert_eq!(s.left, (4, 6));
}

#[test]
fn downscale_stencil_last_window_fits() {
    let h = 8;
    let w = 5;
    let s = downscale_stencil(downscaled_len(h) - 1, downscaled_len(w) - 1, h, w);
    assert!(s.below_right.0 < h && s.below_right.1 < w);
    assert_eq!(s.below_right, (5, 2));
}

#[test]
fn expand_pixel_fills_block() {
    let mut g = Grid::filled(4, 4, 0u8);
    expand_pixel(&mut g, 9, 1, 2);
    for i in 0..4 {
        for j in 0..4 {
            let inside = i <= 2 && (1..=3).contains(&j);
            assert_eq!(g.get(i, j), if inside { 9 } else { 0 });
        }
    }
}

#[test]
fn expand_pixel_clips_at_border() {
    let mut g = Grid::filled(3, 3, 0u8);
    expand_pixel(&mut g, 1, 0, 0);
    assert_eq!(g.into_cells(), vec![1, 1, 0, 1, 1, 0, 0, 0, 0]);
    let mut h = Grid::filled(2, 2, 0u8);
    expand_pixel(&mut h, 4, 10, 10);
    assert_eq!(h.into_cells(), vec![0, 0, 0, 0]);
    let mut k = Grid::filled(2, 2, 0u8);
    expand_pixel(&mut k, 3, usize::MAX, 0);
    assert_eq!(k.into_cells(), vec![0, 0, 0, 0]);
}

#[test]
fn expand_blocks_copies_source_per_block() {
    let small = Grid::from_cells(2, 2, vec![1.0, 2.0, 3.0, 4.0]).unwrap();
    let big = expand_blocks(&small, 7, 6, 0.0f64);
    assert_eq!(big.height(), 7);
    assert_eq!(big.width(), 6);
    for x in 0..7 {
        for y in 0..6 {
            let expected = if x / 3 < 2 && y / 3 < 2 { small.get(x / 3, y / 3) } else { 0.0 };
            assert_eq!(big.get(x, y), expected);
        }
    }
    assert_eq!(big.get(2, 5), 2.0);
    assert_eq!(big.get(6, 0), 0.0);
}

#[test]
fn expand_blocks_onto_smaller_target() {
    let small = Grid::from_cells(2, 1, vec![5u8, 6]).unwrap();
    let big = expand_blocks(&small, 4, 2, 0u8);
    assert_eq!(big.into_cells(), vec![5, 5, 5, 5, 5, 5, 6, 6]);
}

#[test]
fn downscale_windows_read_expanded_blocks() {
    let small = Grid::from_cells(2, 3, vec![1u8, 2, 3, 4, 5, 6]).unwrap();
    let big = expand_blocks(&small, 6, 9, 0u8);
    for x in 0..2 {
        for y in 0..3 {
            let s = downscale_stencil(x, y, 6, 9);
            for p in [s.center, s.above, s.below, s.left, s.right, s.above_left, s.above_right, s.below_left, s.below_right] {
                assert_eq!(big.get(p.0, p.1), small.get(x, y));
            }
        }
    }
}
