//! Coarse-to-fine resolution pyramids.
//!
//! Level 0 is the image itself and level `k + 1` downscales level `k` by three
//! along each axis. A pyramidal solve runs the solver at the coarsest level from
//! a zero field, then at each finer level from the previous result expanded to
//! that level's shape.
use vstd::prelude::*;
use crate::scale::{downscaled_len, downscaled_len_spec, lemma_downscaled_len};

verus! {

/// Shape of level `k` of the pyramid built over a `height` by `width` image.
pub open spec fn level_shape(height: int, width: int, k: nat) -> (int, int)
    decreases k,
{
    if k == 0 {
        (height, width)
    } else {
        let p = level_shape(height, width, (k - 1) as nat);
        (downscaled_len_spec(p.0), downscaled_len_spec(p.1))
    }
}

/// Number of downscaled images that a pyramid of depth `depth` holds: one even
/// for a depth of zero.
pub open spec fn pyramid_count(depth: int) -> int {
    if depth == 0 {
        1
    } else {
        depth
    }
}

/// A pyramid holds one downscaled image per level of depth, and one for a
/// depth of zero: `max(depth, 1)` images.
pub proof fn lemma_pyramid_count(depth: int)
    requires
        depth >= 0,
    ensures
        pyramid_count(depth) >= 1,
        depth >= 1 ==> pyramid_count(depth) == depth,
        depth == 0 ==> pyramid_count(depth) == 1,
{
}

/// Levels `0 .. count` are each at least three pixels along both axes, so that
/// each of them can be downscaled once more.
pub open spec fn levels_fit(height: int, width: int, count: int) -> bool {
    forall|k: nat| k < count ==> #[trigger] level_fits(height, width, k)
}

/// Level `k` is at least three pixels along both axes.
pub open spec fn level_fits(height: int, width: int, k: nat) -> bool {
    level_shape(height, width, k).0 >= 3 && level_shape(height, width, k).1 >= 3
}

/// Every level of a fitting pyramid is no larger than the image and no larger
/// than the level before it.
pub proof fn lemma_levels_shrink(height: int, width: int, count: int, k: nat)
    requires
        levels_fit(height, width, count),
        k <= count,
        height >= 0,
        width >= 0,
    ensures
        0 <= level_shape(height, width, k).0 <= height,
        0 <= level_shape(height, width, k).1 <= width,
        k > 0 ==> level_shape(height, width, k).0 >= 1 && level_shape(height, width, k).1 >= 1,
        k > 0 ==> 3 * level_shape(height, width, k).0 <= level_shape(height, width, (k - 1) as nat).0,
        k > 0 ==> 3 * level_shape(height, width, k).1 <= level_shape(height, width, (k - 1) as nat).1,
    decreases k,
{
    if k > 0 {
        lemma_levels_shrink(height, width, count, (k - 1) as nat);
        let p = level_shape(height, width, (k - 1) as nat);
        assert(level_fits(height, width, (k - 1) as nat));
        lemma_downscaled_len(p.0);
        lemma_downscaled_len(p.1);
    }
}

/// A refining stage's seed, expanded by three, covers its level but for at
/// most the last two rows and the last two columns: level `lv + 1` is level
/// `lv` downscaled.
pub proof fn lemma_seed_covers_level(height: int, width: int, count: int, lv: nat)
    requires
        levels_fit(height, width, count),
        lv < count,
    ensures
        3 * level_shape(height, width, lv + 1).0 <= level_shape(height, width, lv).0 < 3
            * level_shape(height, width, lv + 1).0 + 3,
        3 * level_shape(height, width, lv + 1).1 <= level_shape(height, width, lv).1 < 3
            * level_shape(height, width, lv + 1).1 + 3,
{
    let f = level_shape(height, width, lv);
    assert(level_fits(height, width, lv));
    lemma_downscaled_len(f.0);
    lemma_downscaled_len(f.1);
}

/// Whether every level that a pyramid of depth `depth` downscales is at least
/// three pixels along both axes.
pub fn pyramid_fits(height: usize, width: usize, depth: u8) -> (ok: bool)
    ensures
        ok == levels_fit(height as int, width as int, pyramid_count(depth as int)),
        ok <==> forall|k: nat|
            k < pyramid_count(depth as int) ==> (height as int) / #[trigger] pow3(k) >= 3 && (
            width as int) / pow3(k) >= 3,
{
    proof {
        lemma_levels_fit_closed_form(height as int, width as int, pyramid_count(depth as int));
    }
    let count: usize = if depth == 0 {
        1
    } else {
        depth as usize
    };
    let mut h: usize = height;
    let mut w: usize = width;
    let mut k: usize = 0;
    while k < count
        invariant
            k <= count,
            count == pyramid_count(depth as int),
            (h as int, w as int) == level_shape(height as int, width as int, k as nat),
            forall|m: nat| m < k ==> #[trigger] level_fits(height as int, width as int, m),
        decreases count - k,
    {
        if h < 3 || w < 3 {
            proof {
                let kk: nat = k as nat;
                assert(level_shape(height as int, width as int, kk).0 < 3 || level_shape(
                    height as int,
                    width as int,
                    kk,
                ).1 < 3);
                assert(!level_fits(height as int, width as int, kk));
                assert(kk < count);
                lemma_level_shape_closed_form(height as int, width as int, kk);
                assert(!((height as int) / pow3(kk) >= 3 && (width as int) / pow3(kk) >= 3));
            }
            return false;
        }
        assert(level_shape(height as int, width as int, (k + 1) as nat) == (
            downscaled_len_spec(h as int),
            downscaled_len_spec(w as int),
        ));
        h = downscaled_len(h);
        w = downscaled_len(w);
        k = k + 1;
    }
    true
}

/// Shapes of the downscaled images of a pyramid of depth `depth`: entry `k` is
/// the shape of level `k + 1`.
pub fn pyramid_shapes(height: usize, width: usize, depth: u8) -> (shapes: Vec<(usize, usize)>)
    requires
        levels_fit(height as int, width as int, pyramid_count(depth as int)),
    ensures
        shapes@.len() == pyramid_count(depth as int),
        forall|k: int|
            0 <= k < shapes@.len() ==> (shapes@[k].0 as int, shapes@[k].1 as int) == level_shape(
                height as int,
                width as int,
                (k + 1) as nat,
            ),
        forall|k: int|
            0 <= k < shapes@.len() ==> shapes@[k].0 == (height as int) / pow3((k + 1) as nat)
                && shapes@[k].1 == (width as int) / pow3((k + 1) as nat),
{
    let count: usize = if depth == 0 {
        1
    } else {
        depth as usize
    };
    let mut shapes: Vec<(usize, usize)> = Vec::new();
    let mut h: usize = height;
    let mut w: usize = width;
    let mut k: usize = 0;
    while k < count
        invariant
            k <= count,
            count == pyramid_count(depth as int),
            levels_fit(height as int, width as int, count as int),
            (h as int, w as int) == level_shape(height as int, width as int, k as nat),
            shapes@.len() == k,
            forall|m: int|
                0 <= m < k ==> (shapes@[m].0 as int, shapes@[m].1 as int) == level_shape(
                    height as int,
                    width as int,
                    (m + 1) as nat,
                ),
        decreases count - k,
    {
        assert(level_fits(height as int, width as int, k as nat));
        assert(level_shape(height as int, width as int, (k + 1) as nat) == (
            downscaled_len_spec(h as int),
            downscaled_len_spec(w as int),
        ));
        h = downscaled_len(h);
        w = downscaled_len(w);
        shapes.push((h, w));
        k = k + 1;
    }
    proof {
        assert forall|m: int| 0 <= m < shapes@.len() implies shapes@[m].0 == (height as int) / pow3(
            (m + 1) as nat,
        ) && shapes@[m].1 == (width as int) / pow3((m + 1) as nat) by {
            lemma_level_shape_closed_form(height as int, width as int, (m + 1) as nat);
        }
    }
    shapes
}

/// One solve of a pyramidal run: the level it works on, that level's shape,
/// and the shape of the field it starts from (`None`: a zero field).
pub struct PyramidStage {
    pub level: usize,
    pub height: usize,
    pub width: usize,
    pub seed: Option<(usize, usize)>,
}

/// The stages of a pyramidal solve of depth `depth` over a `height` by `width`
/// image, coarsest first: stage `i` works on level `depth - i`, the first one
/// from a zero field and every later one from the previous stage's field, whose
/// shape is that of the level just coarser.
pub fn pyramid_plan(height: usize, width: usize, depth: u8) -> (plan: Vec<PyramidStage>)
    requires
        depth == 0 || levels_fit(height as int, width as int, depth as int),
    ensures
        is_pyramid_plan(plan@, height as int, width as int, depth as int),
{
    if depth == 0 {
        let mut plan: Vec<PyramidStage> = Vec::new();
        plan.push(PyramidStage { level: 0, height, width, seed: None });
        return plan;
    }
    let shapes = pyramid_shapes(height, width, depth);
    let d: usize = depth as usize;
    let mut plan: Vec<PyramidStage> = Vec::new();
    let coarsest = shapes[d - 1];
    plan.push(PyramidStage { level: d, height: coarsest.0, width: coarsest.1, seed: None });
    let mut i: usize = 1;
    while i <= d
        invariant
            1 <= i <= d + 1,
            d == depth,
            d >= 1,
            shapes@.len() == d,
            forall|k: int|
                0 <= k < shapes@.len() ==> (shapes@[k].0 as int, shapes@[k].1 as int)
                    == level_shape(height as int, width as int, (k + 1) as nat),
            plan@.len() == i,
            forall|j: int|
                0 <= j < plan@.len() ==> stage_matches(
                    #[trigger] plan@[j],
                    height as int,
                    width as int,
                    depth as int,
                    j,
                ),
        decreases d + 1 - i,
    {
        let level: usize = d - i;
        let from = shapes[level];
        let here = if level == 0 {
            (height, width)
        } else {
            shapes[level - 1]
        };
        plan.push(PyramidStage { level, height: here.0, width: here.1, seed: Some(from) });
        i = i + 1;
    }
    plan
}

/// Stage `i` of a pyramidal solve of depth `depth` over a `height` by `width`
/// image: it works on level `depth - i`, at that level's shape, starting from a
/// zero field when it is the first stage and otherwise from a field of the
/// shape of the level just coarser.
pub open spec fn stage_matches(st: PyramidStage, height: int, width: int, depth: int, i: int) -> bool {
    let lv = depth - i;
    &&& st.level == lv
    &&& (st.height as int, st.width as int) == level_shape(height, width, lv as nat)
    &&& if i == 0 {
        st.seed is None
    } else {
        st.seed matches Some(s) && (s.0 as int, s.1 as int) == level_shape(
            height,
            width,
            (lv + 1) as nat,
        )
    }
}

/// `plan` is the list of stages of a pyramidal solve of depth `depth`.
pub open spec fn is_pyramid_plan(plan: Seq<PyramidStage>, height: int, width: int, depth: int) -> bool {
    &&& plan.len() == depth + 1
    &&& forall|i: int| 0 <= i < plan.len() ==> stage_matches(#[trigger] plan[i], height, width, depth, i)
}

/// `3` to the power `k`.
pub open spec fn pow3(k: nat) -> int
    decreases k,
{
    if k == 0 {
        1
    } else {
        3 * pow3((k - 1) as nat)
    }
}

/// Powers of three are positive.
pub proof fn lemma_pow3_positive(k: nat)
    ensures
        pow3(k) >= 1,
    decreases k,
{
    if k > 0 {
        lemma_pow3_positive((k - 1) as nat);
    }
}

/// One downscaling step divides a length by three, rounding down, whatever the
/// length.
pub proof fn lemma_downscaled_len_is_third(n: int)
    requires
        n >= 0,
    ensures
        downscaled_len_spec(n) == n / 3,
{
}

/// Closed form of the pyramid's shapes: level `k` of a `height` by `width`
/// image is `height / 3^k` by `width / 3^k`.
pub proof fn lemma_level_shape_closed_form(height: int, width: int, k: nat)
    requires
        height >= 0,
        width >= 0,
    ensures
        level_shape(height, width, k) == (height / pow3(k), width / pow3(k)),
    decreases k,
{
    if k > 0 {
        let k1 = (k - 1) as nat;
        lemma_level_shape_closed_form(height, width, k1);
        lemma_pow3_positive(k1);
        let p = pow3(k1);
        assert(height / p >= 0 && width / p >= 0) by (nonlinear_arith)
            requires
                height >= 0,
                width >= 0,
                p >= 1,
        ;
        lemma_downscaled_len_is_third(height / p);
        lemma_downscaled_len_is_third(width / p);
        vstd::arithmetic::div_mod::lemma_div_denominator(height, p, 3);
        vstd::arithmetic::div_mod::lemma_div_denominator(width, p, 3);
        assert(p * 3 == pow3(k));
    }
}

/// A pyramid fits exactly when each of its levels `k < count`, of shape
/// `height / 3^k` by `width / 3^k`, is at least three pixels along both axes;
/// nothing else, such as divisibility by three, is asked. In particular an
/// image at least `3^count` pixels along each axis always fits.
pub proof fn lemma_levels_fit_closed_form(height: int, width: int, count: int)
    requires
        height >= 0,
        width >= 0,
    ensures
        levels_fit(height, width, count) <==> forall|k: nat|
            k < count ==> height / #[trigger] pow3(k) >= 3 && width / pow3(k) >= 3,
        count >= 1 && height >= pow3((count - 1) as nat) * 3 && width >= pow3((count - 1) as nat)
            * 3 ==> levels_fit(height, width, count),
{
    assert forall|k: nat| k < count implies (#[trigger] level_fits(height, width, k) <==> (height
        / pow3(k) >= 3 && width / pow3(k) >= 3)) by {
        lemma_level_shape_closed_form(height, width, k);
    }
    if levels_fit(height, width, count) {
        assert forall|k: nat| k < count implies height / #[trigger] pow3(k) >= 3 && width / pow3(
            k,
        ) >= 3 by {
            assert(level_fits(height, width, k));
        }
    }
    if forall|k: nat| k < count ==> height / #[trigger] pow3(k) >= 3 && width / pow3(k) >= 3 {
        assert forall|k: nat| k < count implies #[trigger] level_fits(height, width, k) by {
            assert(height / pow3(k) >= 3 && width / pow3(k) >= 3);
        }
    }
    if count >= 1 && height >= pow3((count - 1) as nat) * 3 && width >= pow3((count - 1) as nat) * 3 {
        assert forall|k: nat| k < count implies height / #[trigger] pow3(k) >= 3 && width / pow3(
            k,
        ) >= 3 by {
            lemma_pow3_monotone(k, (count - 1) as nat);
            lemma_pow3_positive(k);
            let p = pow3(k);
            let q = pow3((count - 1) as nat);
            assert(height / p >= 3 && width / p >= 3) by (nonlinear_arith)
                requires
                    1 <= p <= q,
                    height >= q * 3,
                    width >= q * 3,
            {
                assert(height >= p * 3);
                assert(width >= p * 3);
            }
        }
    }
}

/// Powers of three grow with the exponent.
pub proof fn lemma_pow3_monotone(a: nat, b: nat)
    requires
        a <= b,
    ensures
        pow3(a) <= pow3(b),
    decreases b - a,
{
    if a < b {
        lemma_pow3_monotone(a, (b - 1) as nat);
        lemma_pow3_positive((b - 1) as nat);
    }
}

/// Level `k + 1` of an image is level `k` of the image downscaled once.
pub proof fn lemma_level_shape_shift(height: int, width: int, k: nat)
    requires
        height >= 0,
        width >= 0,
    ensures
        level_shape(height, width, k + 1) == level_shape(
            downscaled_len_spec(height),
            downscaled_len_spec(width),
            k,
        ),
{
    lemma_downscaled_len_is_third(height);
    lemma_downscaled_len_is_third(width);
    lemma_level_shape_closed_form(height, width, k + 1);
    lemma_level_shape_closed_form(height / 3, width / 3, k);
    lemma_pow3_positive(k);
    vstd::arithmetic::div_mod::lemma_div_denominator(height, 3, pow3(k));
    vstd::arithmetic::div_mod::lemma_div_denominator(width, 3, pow3(k));
    assert(3 * pow3(k) == pow3(k + 1));
}

/// A pyramidal solve of depth `depth + 1` is a solve of depth `depth` on the
/// image downscaled once (the same stages, each one level higher), followed by
/// one more stage at full resolution that starts from the result of that
/// solve, expanded.
pub proof fn lemma_plan_refines_downscaled(
    big: Seq<PyramidStage>,
    small: Seq<PyramidStage>,
    height: int,
    width: int,
    depth: int,
)
    requires
        height >= 0,
        width >= 0,
        depth >= 0,
        is_pyramid_plan(big, height, width, depth + 1),
        is_pyramid_plan(small, downscaled_len_spec(height), downscaled_len_spec(width), depth),
    ensures
        forall|i: int|
            0 <= i <= depth ==> {
                &&& #[trigger] big[i].level == small[i].level + 1
                &&& big[i].height == small[i].height
                &&& big[i].width == small[i].width
                &&& big[i].seed == small[i].seed
            },
        big[depth + 1].level == 0,
        big[depth + 1].height == height,
        big[depth + 1].width == width,
        big[depth + 1].seed == Some((small[depth].height, small[depth].width)),
{
    assert forall|i: int| 0 <= i <= depth implies {
        &&& #[trigger] big[i].level == small[i].level + 1
        &&& big[i].height == small[i].height
        &&& big[i].width == small[i].width
        &&& big[i].seed == small[i].seed
    } by {
        assert(stage_matches(big[i], height, width, depth + 1, i));
        assert(stage_matches(
            small[i],
            downscaled_len_spec(height),
            downscaled_len_spec(width),
            depth,
            i,
        ));
        lemma_level_shape_shift(height, width, (depth - i) as nat);
        lemma_level_shape_shift(height, width, (depth - i + 1) as nat);
    }
    assert(stage_matches(big[depth + 1], height, width, depth + 1, depth + 1));
    assert(stage_matches(
        small[depth],
        downscaled_len_spec(height),
        downscaled_len_spec(width),
        depth,
        depth,
    ));
    lemma_level_shape_shift(height, width, 0);
}

} // verus!
