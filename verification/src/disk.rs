//! Locates the lit disk in a square image of the Earth against dark space.
//!
//! Four marches run inward from the buffer's edges, along the row and the
//! column through the buffer's centre, and each stops at the first pixel
//! brighter than [`BLACK`]. The stops give the disk's centre and radius.

use crate::raster::{Raster, RasterView, Rgb};
use vstd::prelude::*;

verus! {

/// Channel level of the threshold below which a pixel counts as empty space.
pub const BLACK: u8 = 4;

/// Centre and radius of the lit disk, in pixels of the buffer it was found in.
#[derive(Debug, Clone, Copy, PartialEq, Eq, Structural)]
pub struct BoundaryEstimate {
    pub center_x: u32,
    pub center_y: u32,
    pub radius: u32,
}

/// Whether `p` is brighter than the threshold: its channels, read as red,
/// green, blue, come after `(BLACK, BLACK, BLACK)` in dictionary order.
pub open spec fn is_lit(p: Rgb) -> bool {
    p.r > BLACK || (p.r == BLACK && (p.g > BLACK || (p.g == BLACK && p.b > BLACK)))
}

/// Row `y` of `v`, each pixel reduced to whether it is lit.
pub open spec fn row_lit(v: RasterView, y: int) -> Seq<bool> {
    Seq::new(v.width, |x: int| is_lit(v.pixel(x, y)))
}

/// Column `x` of `v`, each pixel reduced to whether it is lit.
pub open spec fn column_lit(v: RasterView, x: int) -> Seq<bool> {
    Seq::new(v.height, |y: int| is_lit(v.pixel(x, y)))
}

/// `i` is where a march from the start of `line` stops: at the first lit
/// position, or at the last position where none is lit.
pub open spec fn is_first_stop(line: Seq<bool>, i: int) -> bool {
    &&& 0 <= i < line.len()
    &&& forall|k: int| 0 <= k < i ==> !line[k]
    &&& (line[i] || i == line.len() - 1)
}

/// `i` is where a march from the end of `line` stops: at the last lit
/// position, or at position 0 where none is lit.
pub open spec fn is_last_stop(line: Seq<bool>, i: int) -> bool {
    &&& 0 <= i < line.len()
    &&& forall|k: int| i < k < line.len() ==> !line[k]
    &&& (line[i] || i == 0)
}

/// Where a march from the start of `line` stops.
pub open spec fn first_stop(line: Seq<bool>) -> int {
    choose|i: int| is_first_stop(line, i)
}

/// Where a march from the end of `line` stops.
pub open spec fn last_stop(line: Seq<bool>) -> int {
    choose|i: int| is_last_stop(line, i)
}

/// Distance between two coordinates.
pub open spec fn span(a: int, b: int) -> int {
    if a <= b {
        b - a
    } else {
        a - b
    }
}

/// The estimate that four stops give: the centre is the midpoint of the
/// stops on each axis, the radius the mean of the two half-spans.
pub open spec fn estimate_from(left: int, right: int, top: int, bottom: int) -> BoundaryEstimate {
    BoundaryEstimate {
        center_x: ((left + right) / 2) as u32,
        center_y: ((top + bottom) / 2) as u32,
        radius: ((span(left, right) + span(top, bottom)) / 4) as u32,
    }
}

/// The boundary of the disk in `v`: the marches run along the row and the
/// column through the buffer's centre.
pub open spec fn boundary_of(v: RasterView) -> BoundaryEstimate {
    let xc = (v.width - 1) / 2;
    let yc = (v.height - 1) / 2;
    estimate_from(
        first_stop(row_lit(v, yc)),
        last_stop(row_lit(v, yc)),
        first_stop(column_lit(v, xc)),
        last_stop(column_lit(v, xc)),
    )
}

/// A march from the start stops at one place only.
pub proof fn lemma_first_stop_unique(line: Seq<bool>, i: int)
    requires
        is_first_stop(line, i),
    ensures
        first_stop(line) == i,
{
    let j = first_stop(line);
    assert(is_first_stop(line, j));
    if j < i {
        assert(!line[j]);
    } else if i < j {
        assert(!line[i]);
    }
}

/// A march from the end stops at one place only.
pub proof fn lemma_last_stop_unique(line: Seq<bool>, i: int)
    requires
        is_last_stop(line, i),
    ensures
        last_stop(line) == i,
{
    let j = last_stop(line);
    assert(is_last_stop(line, j));
    if j < i {
        assert(!line[i]);
    } else if i < j {
        assert(!line[j]);
    }
}

/// The estimate is a function of the buffer's content: two buffers of the
/// same size that agree pixel for pixel have the same boundary.
pub proof fn lemma_boundary_is_deterministic(a: RasterView, b: RasterView)
    requires
        a.width >= 1,
        a.height >= 1,
        a.same_size(b),
        forall|x: int, y: int| a.contains(x, y) ==> #[trigger] a.pixel(x, y) == b.pixel(x, y),
    ensures
        boundary_of(a) == boundary_of(b),
{
    let xc = (a.width - 1) / 2;
    let yc = (a.height - 1) / 2;
    assert forall|x: int| 0 <= x < a.width implies #[trigger] row_lit(a, yc)[x] == row_lit(b, yc)[x] by {
        assert(a.contains(x, yc));
        assert(a.pixel(x, yc) == b.pixel(x, yc));
    }
    assert(row_lit(a, yc) =~= row_lit(b, yc));
    assert forall|y: int| 0 <= y < a.height implies #[trigger] column_lit(a, xc)[y] == column_lit(b, xc)[y] by {
        assert(a.contains(xc, y));
        assert(a.pixel(xc, y) == b.pixel(xc, y));
    }
    assert(column_lit(a, xc) =~= column_lit(b, xc));
}

/// Whether the lit pixels of `v` are exactly those at most `radius` away
/// from `(cx, cy)`.
pub open spec fn is_filled_circle(v: RasterView, cx: int, cy: int, radius: int) -> bool {
    forall|x: int, y: int|
        v.contains(x, y) ==> (#[trigger] is_lit(v.pixel(x, y)) <==> (x - cx) * (x - cx) + (y - cy) * (y - cy)
            <= radius * radius)
}

/// A filled circle around the buffer's centre, on a dark background and
/// wholly inside the buffer, is found exactly: the estimate has the
/// circle's centre and its radius.
pub proof fn lemma_centred_circle_is_found(v: RasterView, radius: int)
    requires
        v.wf(),
        v.width >= 1,
        v.height >= 1,
        0 <= radius <= (v.width - 1) / 2,
        radius <= (v.height - 1) / 2,
        is_filled_circle(v, (v.width - 1) / 2, (v.height - 1) / 2, radius),
    ensures
        boundary_of(v).center_x == (v.width - 1) / 2,
        boundary_of(v).center_y == (v.height - 1) / 2,
        boundary_of(v).radius == radius,
{
    let cx = (v.width - 1) / 2;
    let cy = (v.height - 1) / 2;
    let row = row_lit(v, cy);
    let column = column_lit(v, cx);
    assert forall|x: int| 0 <= x < v.width implies (#[trigger] row[x] <==> cx - radius <= x <= cx + radius) by {
        assert(v.contains(x, cy));
        assert(is_lit(v.pixel(x, cy)) <==> (x - cx) * (x - cx) + (cy - cy) * (cy - cy) <= radius * radius);
        lemma_square_order(x - cx, radius);
    }
    assert forall|y: int| 0 <= y < v.height implies (#[trigger] column[y] <==> cy - radius <= y <= cy + radius) by {
        assert(v.contains(cx, y));
        assert(is_lit(v.pixel(cx, y)) <==> (cx - cx) * (cx - cx) + (y - cy) * (y - cy) <= radius * radius);
        lemma_square_order(y - cy, radius);
    }
    assert(row[cx - radius]);
    assert(row[cx + radius]);
    assert(column[cy - radius]);
    assert(column[cy + radius]);
    lemma_first_stop_unique(row, cx - radius);
    lemma_last_stop_unique(row, cx + radius);
    lemma_first_stop_unique(column, cy - radius);
    lemma_last_stop_unique(column, cy + radius);
}

/// For `r >= 0`, `d * d <= r * r` says that `d` lies between `-r` and `r`.
proof fn lemma_square_order(d: int, r: int)
    requires
        0 <= r,
    ensures
        d * d + 0 * 0 <= r * r <==> -r <= d <= r,
        0 * 0 + d * d <= r * r <==> -r <= d <= r,
{
    assert(d * d <= r * r <==> -r <= d <= r) by (nonlinear_arith)
        requires
            0 <= r,
    ;
}

/// Whether `p` is brighter than the threshold.
pub fn lit(p: Rgb) -> (b: bool)
    ensures
        b == is_lit(p),
{
    p.r > BLACK || (p.r == BLACK && (p.g > BLACK || (p.g == BLACK && p.b > BLACK)))
}

/// Marches along row `y` from the left edge to the first lit pixel.
fn march_from_left(disk: &Raster, y: u32) -> (x: u32)
    requires
        disk.wf(),
        disk@.width >= 1,
        y < disk@.height,
    ensures
        x == first_stop(row_lit(disk@, y as int)),
        x < disk@.width,
{
    let last: u32 = disk.width() - 1;
    let ghost line = row_lit(disk@, y as int);
    let mut x: u32 = 0;
    while x < last && !lit(disk.at(x, y))
        invariant
            x <= last,
            last == disk@.width - 1,
            disk.wf(),
            y < disk@.height,
            line == row_lit(disk@, y as int),
            forall|k: int| 0 <= k < x ==> !line[k],
        decreases last - x,
    {
        x = x + 1;
    }
    proof {
        lemma_first_stop_unique(line, x as int);
    }
    x
}

/// Marches along row `y` from the right edge to the last lit pixel.
fn march_from_right(disk: &Raster, y: u32) -> (x: u32)
    requires
        disk.wf(),
        disk@.width >= 1,
        y < disk@.height,
    ensures
        x == last_stop(row_lit(disk@, y as int)),
        x < disk@.width,
{
    let ghost line = row_lit(disk@, y as int);
    let mut x: u32 = disk.width() - 1;
    while x > 0 && !lit(disk.at(x, y))
        invariant
            x < disk@.width,
            disk.wf(),
            y < disk@.height,
            line == row_lit(disk@, y as int),
            forall|k: int| x < k < line.len() ==> !line[k],
        decreases x,
    {
        x = x - 1;
    }
    proof {
        lemma_last_stop_unique(line, x as int);
    }
    x
}

/// Marches along column `x` from the top edge to the first lit pixel.
fn march_from_top(disk: &Raster, x: u32) -> (y: u32)
    requires
        disk.wf(),
        disk@.height >= 1,
        x < disk@.width,
    ensures
        y == first_stop(column_lit(disk@, x as int)),
        y < disk@.height,
{
    let last: u32 = disk.height() - 1;
    let ghost line = column_lit(disk@, x as int);
    let mut y: u32 = 0;
    while y < last && !lit(disk.at(x, y))
        invariant
            y <= last,
            last == disk@.height - 1,
            disk.wf(),
            x < disk@.width,
            line == column_lit(disk@, x as int),
            forall|k: int| 0 <= k < y ==> !line[k],
        decreases last - y,
    {
        y = y + 1;
    }
    proof {
        lemma_first_stop_unique(line, y as int);
    }
    y
}

/// Marches along column `x` from the bottom edge to the last lit pixel.
fn march_from_bottom(disk: &Raster, x: u32) -> (y: u32)
    requires
        disk.wf(),
        disk@.height >= 1,
        x < disk@.width,
    ensures
        y == last_stop(column_lit(disk@, x as int)),
        y < disk@.height,
{
    let ghost line = column_lit(disk@, x as int);
    let mut y: u32 = disk.height() - 1;
    while y > 0 && !lit(disk.at(x, y))
        invariant
            y < disk@.height,
            disk.wf(),
            x < disk@.width,
            line == column_lit(disk@, x as int),
            forall|k: int| y < k < line.len() ==> !line[k],
        decreases y,
    {
        y = y - 1;
    }
    proof {
        lemma_last_stop_unique(line, y as int);
    }
    y
}

/// Distance between two coordinates.
pub(crate) fn distance(a: u32, b: u32) -> (d: u32)
    ensures
        d == span(a as int, b as int),
{
    if a <= b {
        b - a
    } else {
        a - b
    }
}

/// Estimates centre and radius of the lit disk in `disk`.
///
/// A buffer without dark border gives a radius of about half its size, and
/// so does a buffer that is dark throughout: neither is an error.
pub fn detect(disk: &Raster) -> (est: BoundaryEstimate)
    requires
        disk.wf(),
        disk@.width >= 1,
        disk@.height >= 1,
    ensures
        est == boundary_of(disk@),
        est.center_x < disk@.width,
        est.center_y < disk@.height,
        2 * est.radius <= disk@.width + disk@.height,
{
    let xc: u32 = (disk.width() - 1) / 2;
    let yc: u32 = (disk.height() - 1) / 2;
    let left = march_from_left(disk, yc);
    let right = march_from_right(disk, yc);
    let top = march_from_top(disk, xc);
    let bottom = march_from_bottom(disk, xc);
    BoundaryEstimate {
        center_x: ((left as u64 + right as u64) / 2) as u32,
        center_y: ((top as u64 + bottom as u64) / 2) as u32,
        radius: ((distance(left, right) as u64 + distance(top, bottom) as u64) / 4) as u32,
    }
}

} // verus!
