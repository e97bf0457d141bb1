//! Neighbourhoods of a pixel, as used by the derivative, averaging and
//! gradient-descent steps of the Horn-Schunck solvers.
//!
//! Borders are handled by clamping: a neighbour that would fall outside the
//! image is replaced by the nearest pixel inside it.
use vstd::prelude::*;

verus! {

/// Index `reach` steps before `i`, stopped at the first index.
pub open spec fn clamped_prev(i: int, reach: int) -> int {
    if i >= reach {
        i - reach
    } else {
        0
    }
}

/// Index `reach` steps after `i`, stopped at the last index `len - 1`.
pub open spec fn clamped_next(i: int, reach: int, len: int) -> int {
    if i + reach <= len - 1 {
        i + reach
    } else {
        len - 1
    }
}

/// The indices `reach` steps before and after `i` on an axis of length `len`,
/// clamped to the axis.
pub fn axis_neighbors(i: usize, len: usize, reach: usize) -> (r: (usize, usize))
    requires
        i < len,
    ensures
        r.0 == clamped_prev(i as int, reach as int),
        r.1 == clamped_next(i as int, reach as int, len as int),
        r.0 <= i <= r.1 < len,
        i - r.0 == if i >= reach {
            reach as int
        } else {
            i as int
        },
        r.1 - i == if reach <= len - 1 - i {
            reach as int
        } else {
            len - 1 - i
        },
{
    let prev: usize = i.saturating_sub(reach);
    let next: usize = if reach <= len - 1 - i {
        i + reach
    } else {
        len - 1
    };
    (prev, next)
}

/// Distance between the two neighbours of `i` on an axis of length `len`; the
/// central difference at `i` divides by it, and a zero span means the
/// derivative along that axis is zero.
pub open spec fn derivative_span_spec(i: int, len: int) -> int {
    clamped_next(i, 1, len) - clamped_prev(i, 1)
}

/// The span of the central difference at `i`: 2 inside the axis, 1 at either
/// end of an axis of at least two pixels, and 0 only on an axis of a single
/// pixel.
pub fn derivative_span(i: usize, len: usize) -> (span: usize)
    requires
        i < len,
    ensures
        span == derivative_span_spec(i as int, len as int),
        span == 0 <==> len == 1,
        span == 2 <==> 0 < i && i + 1 < len,
        span == 1 <==> len >= 2 && (i == 0 || i + 1 == len),
{
    let (prev, next) = axis_neighbors(i, len, 1);
    next - prev
}

/// A pixel together with its eight surrounding positions. Rows are the first
/// coordinate: `above` is one row up, `left` one column to the left.
pub struct Stencil {
    pub center: (usize, usize),
    pub above: (usize, usize),
    pub below: (usize, usize),
    pub left: (usize, usize),
    pub right: (usize, usize),
    pub above_left: (usize, usize),
    pub above_right: (usize, usize),
    pub below_left: (usize, usize),
    pub below_right: (usize, usize),
}

/// The stencil centred on `(x, y)` whose rows above and below are `up` and
/// `down` and whose columns left and right are `lt` and `rt`.
pub open spec fn stencil_of(x: int, y: int, up: int, down: int, lt: int, rt: int) -> Stencil {
    Stencil {
        center: (x as usize, y as usize),
        above: (up as usize, y as usize),
        below: (down as usize, y as usize),
        left: (x as usize, lt as usize),
        right: (x as usize, rt as usize),
        above_left: (up as usize, lt as usize),
        above_right: (up as usize, rt as usize),
        below_left: (down as usize, lt as usize),
        below_right: (down as usize, rt as usize),
    }
}

/// Every position of the stencil lies in a `height` by `width` image.
pub open spec fn stencil_in_bounds(s: Stencil, height: int, width: int) -> bool {
    let inb = |p: (usize, usize)| p.0 < height && p.1 < width;
    &&& inb(s.center)
    &&& inb(s.above)
    &&& inb(s.below)
    &&& inb(s.left)
    &&& inb(s.right)
    &&& inb(s.above_left)
    &&& inb(s.above_right)
    &&& inb(s.below_left)
    &&& inb(s.below_right)
}

/// `i` moved into an axis of length `len`: indices past the end become the last one.
pub open spec fn clamp_to(i: int, len: int) -> int {
    if i <= len - 1 {
        i
    } else {
        len - 1
    }
}

/// The eight neighbours of `(x, y)` used by the weighted local average. Each
/// position is taken one step away from the centre (not below index 0) and
/// then clamped into the image, so any centre, inside the image or past its
/// last row or column, gets positions inside the image; for a centre inside the
/// image they are its clamped neighbours.
pub fn clamped_stencil(x: usize, y: usize, height: usize, width: usize) -> (s: Stencil)
    requires
        height >= 1,
        width >= 1,
        x < usize::MAX,
        y < usize::MAX,
    ensures
        s == stencil_of(
            clamp_to(x as int, height as int),
            clamp_to(y as int, width as int),
            clamp_to(clamped_prev(x as int, 1), height as int),
            clamp_to(x + 1, height as int),
            clamp_to(clamped_prev(y as int, 1), width as int),
            clamp_to(y + 1, width as int),
        ),
        stencil_in_bounds(s, height as int, width as int),
        x < height && y < width ==> s == stencil_of(
            x as int,
            y as int,
            clamped_prev(x as int, 1),
            clamped_next(x as int, 1, height as int),
            clamped_prev(y as int, 1),
            clamped_next(y as int, 1, width as int),
        ),
        x < height && y < width ==> average_neighbours_hold(s, x as int, y as int, height as int, width as int),
        x >= height ==> s.center.0 == height - 1 && s.above.0 == height - 1 && s.below.0 == height - 1,
        y >= width ==> s.center.1 == width - 1 && s.left.1 == width - 1 && s.right.1 == width - 1,
{
    let cx: usize = if x <= height - 1 {
        x
    } else {
        height - 1
    };
    let cy: usize = if y <= width - 1 {
        y
    } else {
        width - 1
    };
    let xm: usize = x.saturating_sub(1);
    let ym: usize = y.saturating_sub(1);
    let up: usize = if xm <= height - 1 {
        xm
    } else {
        height - 1
    };
    let down: usize = if x + 1 <= height - 1 {
        x + 1
    } else {
        height - 1
    };
    let lt: usize = if ym <= width - 1 {
        ym
    } else {
        width - 1
    };
    let rt: usize = if y + 1 <= width - 1 {
        y + 1
    } else {
        width - 1
    };
    let s = Stencil {
        center: (cx, cy),
        above: (up, cy),
        below: (down, cy),
        left: (cx, lt),
        right: (cx, rt),
        above_left: (up, lt),
        above_right: (up, rt),
        below_left: (down, lt),
        below_right: (down, rt),
    };
    proof {
        if x < height && y < width {
            lemma_average_stencil_neighbours(x as int, y as int, height as int, width as int);
        }
    }
    s
}

/// The positions that the weighted average around an in-image centre
/// `(x, y)` reads: the centre itself; one row up, one row down, one column
/// left and one column right, each replaced by the centre's own row or column
/// where it would leave the image; and the four corners that combine them.
pub open spec fn average_neighbours_hold(s: Stencil, x: int, y: int, height: int, width: int) -> bool {
    &&& s.center == (x as usize, y as usize)
    &&& x > 0 ==> s.above == ((x - 1) as usize, y as usize) && s.above != s.center
    &&& x == 0 ==> s.above == s.center
    &&& x + 1 < height ==> s.below == ((x + 1) as usize, y as usize) && s.below != s.center
    &&& x + 1 == height ==> s.below == s.center
    &&& y > 0 ==> s.left == (x as usize, (y - 1) as usize) && s.left != s.center
    &&& y == 0 ==> s.left == s.center
    &&& y + 1 < width ==> s.right == (x as usize, (y + 1) as usize) && s.right != s.center
    &&& y + 1 == width ==> s.right == s.center
    &&& s.above_left == (s.above.0, s.left.1)
    &&& s.above_right == (s.above.0, s.right.1)
    &&& s.below_left == (s.below.0, s.left.1)
    &&& s.below_right == (s.below.0, s.right.1)
}

/// The stencil of the weighted average around an in-image centre reads the
/// pixel one row up (`(x - 1, y)`, not the centre) whenever there is one, and
/// likewise one row down, one column left and one column right; at a border
/// the missing neighbour is the centre's own row or column; the corners
/// combine the rows and columns of the edge neighbours.
pub proof fn lemma_average_stencil_neighbours(x: int, y: int, height: int, width: int)
    requires
        0 <= x < height <= usize::MAX,
        0 <= y < width <= usize::MAX,
    ensures
        average_neighbours_hold(
            stencil_of(
                clamp_to(x, height),
                clamp_to(y, width),
                clamp_to(clamped_prev(x, 1), height),
                clamp_to(x + 1, height),
                clamp_to(clamped_prev(y, 1), width),
                clamp_to(y + 1, width),
            ),
            x,
            y,
            height,
            width,
        ),
        stencil_of(
            clamp_to(x, height),
            clamp_to(y, width),
            clamp_to(clamped_prev(x, 1), height),
            clamp_to(x + 1, height),
            clamp_to(clamped_prev(y, 1), width),
            clamp_to(y + 1, width),
        ).above == if x > 0 {
            ((x - 1) as usize, y as usize)
        } else {
            (x as usize, y as usize)
        },
{
}

} // verus!
