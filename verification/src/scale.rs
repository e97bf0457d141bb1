//! Changing resolution by a factor of three: the geometry of downscaling, the
//! block copy that expands a coarse field back onto a finer grid, and the shapes
//! of a resolution pyramid.
use vstd::prelude::*;
use crate::grid::Grid;
use crate::stencil::{Stencil, stencil_of, stencil_in_bounds};

verus! {

/// Length of an axis of `n >= 3` pixels after one downscaling step: one output
/// pixel per full run of three input pixels.
pub open spec fn downscaled_len_spec(n: int) -> int {
    (n - 3) / 3 + 1
}

/// `downscaled_len_spec(n)` is `n / 3`, and the runs of three pixels that the
/// output pixels summarise cover the axis up to its last `n % 3` pixels.
pub proof fn lemma_downscaled_len(n: int)
    requires
        n >= 3,
    ensures
        downscaled_len_spec(n) == n / 3,
        downscaled_len_spec(n) >= 1,
        3 * downscaled_len_spec(n) <= n < 3 * downscaled_len_spec(n) + 3,
{
}

/// Expanding a downscaled axis of `n` pixels back onto `n` pixels: index `x`
/// receives a coarse value exactly when `x < 3 * (n / 3)`, so at most the last
/// two indices are left without one.
pub proof fn lemma_expand_covers_downscaled(n: int, x: int)
    requires
        n >= 3,
        0 <= x < n,
    ensures
        x / 3 < downscaled_len_spec(n) <==> x < 3 * downscaled_len_spec(n),
        n - 2 <= 3 * downscaled_len_spec(n) <= n,
{
}

/// Length of an axis of `n` pixels after one downscaling step.
pub fn downscaled_len(n: usize) -> (r: usize)
    requires
        n >= 3,
    ensures
        r == downscaled_len_spec(n as int),
        r == n / 3,
        1 <= r,
        3 * r <= n < 3 * r + 3,
{
    (n - 3) / 3 + 1
}

/// The stencil summarised by output pixel `(x, y)` of a downscaled image: the
/// 3x3 block centred on input pixel `(3x + 1, 3y + 1)`. The whole block lies in
/// the input image.
pub fn downscale_stencil(x: usize, y: usize, height: usize, width: usize) -> (s: Stencil)
    requires
        height >= 3,
        width >= 3,
        x < downscaled_len_spec(height as int),
        y < downscaled_len_spec(width as int),
    ensures
        s == stencil_of(
            3 * x + 1,
            3 * y + 1,
            3 * x as int,
            3 * x + 2,
            3 * y as int,
            3 * y + 2,
        ),
        stencil_in_bounds(s, height as int, width as int),
        downscale_window_holds(s, x as int, y as int),
{
    proof {
        lemma_downscale_window(x as int, y as int);
    }
    let cx: usize = 3 * x + 1;
    let cy: usize = 3 * y + 1;
    Stencil {
        center: (cx, cy),
        above: (cx - 1, cy),
        below: (cx + 1, cy),
        left: (cx, cy - 1),
        right: (cx, cy + 1),
        above_left: (cx - 1, cy - 1),
        above_right: (cx - 1, cy + 1),
        below_left: (cx + 1, cy - 1),
        below_right: (cx + 1, cy + 1),
    }
}

/// The window of output pixel `(x, y)` is the 3x3 block of input rows
/// `3x .. 3x + 2` and columns `3y .. 3y + 2`: its centre is `(3x + 1, 3y + 1)`,
/// `above` is one row up at `(3x, 3y + 1)`, `below` one row down, `left` and
/// `right` one column either side, and the corners combine them; the nine
/// positions are all different and all belong to that block.
pub open spec fn downscale_window_holds(s: Stencil, x: int, y: int) -> bool {
    let ps = seq![
        s.center,
        s.above,
        s.below,
        s.left,
        s.right,
        s.above_left,
        s.above_right,
        s.below_left,
        s.below_right,
    ];
    &&& s.center == ((3 * x + 1) as usize, (3 * y + 1) as usize)
    &&& s.above == ((3 * x) as usize, (3 * y + 1) as usize)
    &&& s.below == ((3 * x + 2) as usize, (3 * y + 1) as usize)
    &&& s.left == ((3 * x + 1) as usize, (3 * y) as usize)
    &&& s.right == ((3 * x + 1) as usize, (3 * y + 2) as usize)
    &&& s.above_left == ((3 * x) as usize, (3 * y) as usize)
    &&& s.above_right == ((3 * x) as usize, (3 * y + 2) as usize)
    &&& s.below_left == ((3 * x + 2) as usize, (3 * y) as usize)
    &&& s.below_right == ((3 * x + 2) as usize, (3 * y + 2) as usize)
    &&& forall|i: int| 0 <= i < 9 ==> (#[trigger] ps[i]).0 / 3 == x && ps[i].1 / 3 == y
    &&& forall|i: int, j: int| 0 <= i < j < 9 ==> #[trigger] ps[i] != #[trigger] ps[j]
}

/// The window that a downscaling reads for output pixel `(x, y)` covers the
/// nine distinct pixels of the block `3x .. 3x + 2` by `3y .. 3y + 2`, with the
/// pixel above the centre at `(3x, 3y + 1)`.
pub proof fn lemma_downscale_window(x: int, y: int)
    requires
        0 <= x,
        0 <= y,
        3 * x + 2 <= usize::MAX,
        3 * y + 2 <= usize::MAX,
    ensures
        downscale_window_holds(
            stencil_of(3 * x + 1, 3 * y + 1, 3 * x, 3 * x + 2, 3 * y, 3 * y + 2),
            x,
            y,
        ),
        stencil_of(3 * x + 1, 3 * y + 1, 3 * x, 3 * x + 2, 3 * y, 3 * y + 2).above != stencil_of(
            3 * x + 1,
            3 * y + 1,
            3 * x,
            3 * x + 2,
            3 * y,
            3 * y + 2,
        ).center,
{
    let s = stencil_of(3 * x + 1, 3 * y + 1, 3 * x, 3 * x + 2, 3 * y, 3 * y + 2);
    let ps = seq![
        s.center,
        s.above,
        s.below,
        s.left,
        s.right,
        s.above_left,
        s.above_right,
        s.below_left,
        s.below_right,
    ];
    assert(ps.len() == 9);
    assert forall|i: int| 0 <= i < 9 implies (#[trigger] ps[i]).0 / 3 == x && ps[i].1 / 3 == y by {
    }
    assert forall|i: int, j: int| 0 <= i < j < 9 implies #[trigger] ps[i] != #[trigger] ps[j] by {
    }
}

/// Row (or column) written by offset `d` of a 3x3 block centred on `c`:
/// `c + d - 1`, computed with saturating arithmetic on `usize`.
pub open spec fn block_pos(c: int, d: int) -> int {
    let a = if c + d > usize::MAX {
        usize::MAX as int
    } else {
        c + d
    };
    if a >= 1 {
        a - 1
    } else {
        0
    }
}

/// `i` is one of the first `n` rows (or columns) written by a block centred on `c`.
pub open spec fn block_covers(c: int, i: int, n: int) -> bool {
    ||| (n >= 1 && i == block_pos(c, 0))
    ||| (n >= 2 && i == block_pos(c, 1))
    ||| (n >= 3 && i == block_pos(c, 2))
}

/// The three offsets of a block reach exactly the indices within one of its
/// centre.
pub proof fn lemma_block_covers(c: int, i: int)
    requires
        0 <= c <= usize::MAX,
        0 <= i < usize::MAX,
    ensures
        block_covers(c, i, 3) <==> c - 1 <= i <= c + 1,
{
}

/// Writes `value` into the 3x3 block of `image` centred on
/// `(x_center, y_center)`, skipping the cells that fall outside the image.
pub fn expand_pixel<T: Copy>(image: &mut Grid<T>, value: T, x_center: usize, y_center: usize)
    ensures
        final(image).rows() == old(image).rows(),
        final(image).cols() == old(image).cols(),
        forall|i: int, j: int|
            0 <= i < old(image).rows() && 0 <= j < old(image).cols() ==> final(image).at(i, j)
                == if x_center - 1 <= i <= x_center + 1 && y_center - 1 <= j <= y_center + 1 {
                value
            } else {
                old(image).at(i, j)
            },
{
    let h: usize = image.height();
    let w: usize = image.width();
    let ghost start = *image;
    let mut dx: usize = 0;
    while dx < 3
        invariant
            dx <= 3,
            image.rows() == h,
            image.cols() == w,
            h == start.rows(),
            w == start.cols(),
            forall|i: int, j: int|
                0 <= i < h && 0 <= j < w ==> image.at(i, j) == if block_covers(
                    x_center as int,
                    i,
                    dx as int,
                ) && block_covers(y_center as int, j, 3) {
                    value
                } else {
                    start.at(i, j)
                },
        decreases 3 - dx,
    {
        let x: usize = x_center.saturating_add(dx).saturating_sub(1);
        let ghost before = *image;
        let mut dy: usize = 0;
        while dy < 3
            invariant
                dx < 3,
                dy <= 3,
                x == block_pos(x_center as int, dx as int),
                image.rows() == h,
                image.cols() == w,
                before.rows() == h,
                before.cols() == w,
                forall|i: int, j: int|
                    0 <= i < h && 0 <= j < w ==> image.at(i, j) == if i == x && block_covers(
                        y_center as int,
                        j,
                        dy as int,
                    ) {
                        value
                    } else {
                        before.at(i, j)
                    },
            decreases 3 - dy,
        {
            let y: usize = y_center.saturating_add(dy).saturating_sub(1);
            if x < h && y < w {
                image.set(x, y, value);
            }
            dy = dy + 1;
        }
        dx = dx + 1;
    }
    proof {
        assert forall|i: int, j: int| 0 <= i < h && 0 <= j < w implies image.at(i, j) == if x_center
            - 1 <= i <= x_center + 1 && y_center - 1 <= j <= y_center + 1 {
            value
        } else {
            start.at(i, j)
        } by {
            lemma_block_covers(x_center as int, i);
            lemma_block_covers(y_center as int, j);
        }
    }
}

/// `big` is `small` expanded onto a `target_height` by `target_width` grid:
/// each target cell `(x, y)` holds the source cell `(x / 3, y / 3)` when there
/// is one and `background` otherwise.
pub open spec fn is_expansion<T>(small: Grid<T>, big: Grid<T>, target_height: int, target_width: int, background: T) -> bool {
    &&& big.rows() == target_height
    &&& big.cols() == target_width
    &&& forall|x: int, y: int|
        0 <= x < target_height && 0 <= y < target_width ==> big.at(x, y) == if x / 3
            < small.rows() && y / 3 < small.cols() {
            small.at(x / 3, y / 3)
        } else {
            background
        }
}

/// In an expansion each source cell `(x, y)` fills the whole 3x3 block of rows
/// `3x .. 3x + 2` and columns `3y .. 3y + 2` (as far as the target reaches),
/// and every target cell in a row at or past `3 * rows` or a column at or past
/// `3 * cols` holds the background.
pub proof fn lemma_expansion_blocks<T>(small: Grid<T>, big: Grid<T>, target_height: int, target_width: int, background: T)
    requires
        is_expansion(small, big, target_height, target_width, background),
    ensures
        forall|x: int, y: int, d: int, e: int|
            0 <= x < small.rows() && 0 <= y < small.cols() && 0 <= d < 3 && 0 <= e < 3 && 3 * x
                + d < target_height && 3 * y + e < target_width ==> #[trigger] big.at(
                3 * x + d,
                3 * y + e,
            ) == small.at(x, y),
        forall|i: int, j: int|
            0 <= i < target_height && 0 <= j < target_width && (i >= 3 * small.rows() || j >= 3
                * small.cols()) ==> #[trigger] big.at(i, j) == background,
{
    assert forall|x: int, y: int, d: int, e: int|
        0 <= x < small.rows() && 0 <= y < small.cols() && 0 <= d < 3 && 0 <= e < 3 && 3 * x + d
            < target_height && 3 * y + e < target_width implies #[trigger] big.at(3 * x + d, 3 * y + e)
        == small.at(x, y) by {
        assert((3 * x + d) / 3 == x);
        assert((3 * y + e) / 3 == y);
    }
    assert forall|i: int, j: int|
        0 <= i < target_height && 0 <= j < target_width && (i >= 3 * small.rows() || j >= 3
            * small.cols()) implies #[trigger] big.at(i, j) == background by {
        assert(i >= 3 * small.rows() ==> i / 3 >= small.rows());
        assert(j >= 3 * small.cols() ==> j / 3 >= small.cols());
    }
}

/// Every one of the nine cells of the stencil `s` of `g` holds `v`.
pub open spec fn stencil_holds<T>(g: Grid<T>, s: Stencil, v: T) -> bool {
    let has = |p: (usize, usize)| g.at(p.0 as int, p.1 as int) == v;
    &&& has(s.center)
    &&& has(s.above)
    &&& has(s.below)
    &&& has(s.left)
    &&& has(s.right)
    &&& has(s.above_left)
    &&& has(s.above_right)
    &&& has(s.below_left)
    &&& has(s.below_right)
}

/// Downscaling undoes the block copy of an expansion: when a grid is expanded
/// onto exactly three times its size, the 3x3 window that output pixel
/// `(x, y)` of a downscaling reads lies in the expanded grid and holds the
/// source value `small.at(x, y)` in each of its nine cells.
pub proof fn lemma_downscale_reads_expanded_block<T>(small: Grid<T>, big: Grid<T>, background: T, x: int, y: int)
    requires
        is_expansion(small, big, 3 * (small.rows() as int), 3 * (small.cols() as int), background),
        0 <= x < small.rows(),
        0 <= y < small.cols(),
    ensures
        x < downscaled_len_spec(3 * (small.rows() as int)),
        y < downscaled_len_spec(3 * (small.cols() as int)),
        stencil_in_bounds(
            stencil_of(3 * x + 1, 3 * y + 1, 3 * x, 3 * x + 2, 3 * y, 3 * y + 2),
            3 * (small.rows() as int),
            3 * (small.cols() as int),
        ),
        stencil_holds(
            big,
            stencil_of(3 * x + 1, 3 * y + 1, 3 * x, 3 * x + 2, 3 * y, 3 * y + 2),
            small.at(x, y),
        ),
{
    let r = 3 * (small.rows() as int);
    let c = 3 * (small.cols() as int);
    big.lemma_dims_bounded();
    assert forall|i: int, j: int| 3 * x <= i <= 3 * x + 2 && 3 * y <= j <= 3 * y + 2 implies big.at(i, j)
        == small.at(x, y) by {
        assert(i / 3 == x);
        assert(j / 3 == y);
        assert(0 <= i < r && 0 <= j < c);
    }
    let v = small.at(x, y);
    assert(big.at(3 * x + 1, 3 * y + 1) == v);
    assert(big.at(3 * x, 3 * y + 1) == v);
    assert(big.at(3 * x + 2, 3 * y + 1) == v);
    assert(big.at(3 * x + 1, 3 * y) == v);
    assert(big.at(3 * x + 1, 3 * y + 2) == v);
    assert(big.at(3 * x, 3 * y) == v);
    assert(big.at(3 * x, 3 * y + 2) == v);
    assert(big.at(3 * x + 2, 3 * y) == v);
    assert(big.at(3 * x + 2, 3 * y + 2) == v);
}

/// Places each cell of `small` onto the 3x3 block centred on
/// `(3i + 1, 3j + 1)` of a new `target_height` by `target_width` grid whose
/// other cells hold `background`. The blocks of distinct cells are disjoint, so
/// each target cell `(X, Y)` receives the source cell `(X / 3, Y / 3)` when
/// there is one.
pub fn expand_blocks<T: Copy>(small: &Grid<T>, target_height: usize, target_width: usize, background: T) -> (big: Grid<T>)
    requires
        target_height * target_width <= usize::MAX,
        small.rows() > 0 && small.cols() > 0 ==> 3 * (small.rows() as int) - 2 <= usize::MAX && 3
            * small.cols() - 2 <= usize::MAX,
    ensures
        is_expansion(*small, big, target_height as int, target_width as int, background),
{
    let dh: usize = small.height();
    let dw: usize = small.width();
    let mut big = Grid::filled(target_height, target_width, background);
    let mut xi: usize = 0;
    while xi < dh
        invariant
            xi <= dh,
            dh == small.rows(),
            dw == small.cols(),
            dh > 0 && dw > 0 ==> 3 * dh - 2 <= usize::MAX && 3 * dw - 2 <= usize::MAX,
            big.rows() == target_height,
            big.cols() == target_width,
            forall|x: int, y: int|
                0 <= x < target_height && 0 <= y < target_width ==> big.at(x, y) == if x / 3
                    < xi && y / 3 < dw {
                    small.at(x / 3, y / 3)
                } else {
                    background
                },
        decreases dh - xi,
    {
        let mut yi: usize = 0;
        while yi < dw
            invariant
                xi < dh,
                yi <= dw,
                dh == small.rows(),
                dw == small.cols(),
                dw > 0 ==> 3 * dh - 2 <= usize::MAX && 3 * dw - 2 <= usize::MAX,
                big.rows() == target_height,
                big.cols() == target_width,
                forall|x: int, y: int|
                    0 <= x < target_height && 0 <= y < target_width ==> big.at(x, y) == if (x
                        / 3 < xi && y / 3 < dw) || (x / 3 == xi && y / 3 < yi) {
                        small.at(x / 3, y / 3)
                    } else {
                        background
                    },
            decreases dw - yi,
        {
            let value: T = small.get(xi, yi);
            let xc: usize = xi * 3 + 1;
            let yc: usize = yi * 3 + 1;
            expand_pixel(&mut big, value, xc, yc);
            yi = yi + 1;
        }
        xi = xi + 1;
    }
    big
}

} // verus!
