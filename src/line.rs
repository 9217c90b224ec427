use vstd::prelude::*;

verus! {

/// Largest distance from the origin that a line's coordinates may have, so
/// that the rasterizer's differences and error terms fit in an `isize`.
pub const LINE_COORD_LIMIT: isize = 0x1000_0000;

pub open spec fn coord_in_limit(c: isize) -> bool {
    -LINE_COORD_LIMIT <= c <= LINE_COORD_LIMIT
}

/// The points of Bresenham's line from `(x0, y0)` to `(x1, y1)`, in order.
pub uninterp spec fn bresenham_points(x0: isize, y0: isize, x1: isize, y1: isize) -> Seq<
    (isize, isize),
>;

/// Number of points on a line whose ends differ by `dx` and `dy`.
pub open spec fn line_len(dx: int, dy: int) -> int {
    let ax = if dx < 0 {
        -dx
    } else {
        dx
    };
    let ay = if dy < 0 {
        -dy
    } else {
        dy
    };
    if ax > ay {
        ax + 1
    } else {
        ay + 1
    }
}

/// Relies on line_drawing::Bresenham (`new` and the iterator's `next`): the
/// points it yields depend on the ends alone; the first is the start, the
/// last is the end, and there is one per step along the longer axis.
#[verifier::external_body]
fn bresenham(x0: isize, y0: isize, x1: isize, y1: isize) -> (r: Vec<(isize, isize)>)
    requires
        coord_in_limit(x0),
        coord_in_limit(y0),
        coord_in_limit(x1),
        coord_in_limit(y1),
    ensures
        r@ == bresenham_points(x0, y0, x1, y1),
        r@.len() == line_len(x1 - x0, y1 - y0),
        r@[0] == (x0, y0),
        r@.last() == (x1, y1),
{
    line_drawing::Bresenham::new((x0, y0), (x1, y1)).collect()
}

/// The integer points of the straight line between two points, both ends
/// included, from the first to the second.
pub fn line_points(x0: isize, y0: isize, x1: isize, y1: isize) -> (r: Vec<(isize, isize)>)
    requires
        coord_in_limit(x0),
        coord_in_limit(y0),
        coord_in_limit(x1),
        coord_in_limit(y1),
    ensures
        r@ == bresenham_points(x0, y0, x1, y1),
        r@.len() == line_len(x1 - x0, y1 - y0),
        r@[0] == (x0, y0),
        r@.last() == (x1, y1),
{
    bresenham(x0, y0, x1, y1)
}

} // verus!
