use horn_shunck_rs::pyramid::{pyramid_fits, pyramid_plan, pyramid_shapes};

#[test]
fn pyramid_fits_cases() {
    assert!(pyramid_fits(9, 9, 2));
    assert!(!pyramid_fits(9, 9, 3));
    assert!(pyramid_fits(3, 3, 0));
    assert!(pyramid_fits(3, 3, 1));
    assert!(!pyramid_fits(2, 100, 0));
    assert!(!pyramid_fits(30, 8, 2));
}

#[test]
fn pyramid_shapes_values() {
    assert_eq!(pyramid_shapes(100, 50, 3), vec![(33, 16), (11, 5), (3, 1)]);
    assert_eq!(pyramid_shapes(9, 12, 0), vec![(3, 4)]);
    assert_eq!(pyramid_shapes(9, 12, 1), vec![(3, 4)]);
}

#[test]
fn pyramid_plan_depth_zero() {
    let plan = pyramid_plan(10, 7, 0);
    assert_eq!(plan.len(), 1);
    assert_eq!((plan[0].level, plan[0].height, plan[0].width), (0, 10, 7));
    assert!(plan[0].seed.is_none());
}

#[test]
fn pyramid_plan_goes_coarse_to_fine() {
    let plan = pyramid_plan(100, 50, 2);
    let got: Vec<(usize, usize, usize, Option<(usize, usize)>)> =
        plan.iter().map(|s| (s.level, s.height, s.width, s.seed)).collect();
    assert_eq!(
        got,
        vec![
            (2, 11, 5, None),
            (1, 33, 16, Some((11, 5))),
            (0, 100, 50, Some((33, 16))),
        ]
    );
}

#[test]
fn pyramid_seeds_cover_their_stage() {
    let plan = pyramid_plan(100, 50, 2);
    for stage in plan.iter().skip(1) {
        let (sh, sw) = stage.seed.unwrap();
        assert!(3 * sh <= stage.height && stage.height < 3 * sh + 3);
        assert!(3 * sw <= stage.width && stage.width < 3 * sw + 3);
    }
}

#[test]
fn pyramid_shapes_are_powers_of_three() {
    let shapes = pyramid_shapes(1000, 730, 4);
    for (k, &(h, w)) in shapes.iter().enumerate() {
        let p = 3usize.pow(k as u32 + 1);
        assert_eq!((h, w), (1000 / p, 730 / p));
    }
}

#[test]
fn deeper_plan_extends_plan_of_downscaled_image() {
    let big = pyramid_plan(100, 50, 3);
    let small = pyramid_plan(33, 16, 2);
    for i in 0..3 {
        assert_eq!(big[i].level, small[i].level + 1);
        assert_eq!((big[i].height, big[i].width, big[i].seed), (small[i].height, small[i].width, small[i].seed));
    }
    assert_eq!((big[3].level, big[3].height, big[3].width), (0, 100, 50));
    assert_eq!(big[3].seed, Some((small[2].height, small[2].width)));
}
