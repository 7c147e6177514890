use vstd::prelude::*;

use crate::escape::escape_count;
use crate::escape::spec_escape_count;
use crate::fixed::div_scale;
use crate::fixed::saturate;
use crate::fixed::spec_div_scale;
use crate::fixed::spec_sat;
use crate::fixed::Fixed;
use crate::fixed::LIM;
use crate::fixed::SCALE;

verus! {

/// The rectangle of the complex plane that the pixel grid samples.
///
/// A degenerate or inverted rectangle is not rejected: it silently yields a
/// degenerate or mirrored field.
#[derive(Clone, Copy, Debug, PartialEq, Eq, Structural)]
pub struct PlaneRect {
    pub x_min: Fixed,
    pub x_max: Fixed,
    pub y_min: Fixed,
    pub y_max: Fixed,
}

impl PlaneRect {
    /// All four bounds are well-formed fixed-point values.
    pub open spec fn wf(self) -> bool {
        self.x_min.wf() && self.x_max.wf() && self.y_min.wf() && self.y_max.wf()
    }
}

/// The pixel fraction `idx / dim` in raw fixed-point units, rounded down.
pub open spec fn spec_frac(idx: int, dim: int) -> int
    recommends
        0 < dim,
{
    (idx * (SCALE as int)) / dim
}

/// Linear interpolation of the bound `lo..hi` by the pixel fraction
/// `idx / dim`: the plane coordinate sampled for pixel index `idx`.
pub open spec fn spec_map_coord(lo: int, hi: int, idx: int, dim: int) -> int
    recommends
        0 < dim,
{
    spec_sat(lo + spec_div_scale((hi - lo) * spec_frac(idx, dim)))
}

/// The escape count of the sample point of pixel `(x, y)` in a
/// `width * height` grid over `rect`.
pub open spec fn spec_cell(
    rect: PlaneRect,
    max_iters: nat,
    width: int,
    height: int,
    x: int,
    y: int,
) -> nat {
    spec_escape_count(
        spec_map_coord(rect.x_min@, rect.x_max@, x, width),
        spec_map_coord(rect.y_min@, rect.y_max@, y, height),
        max_iters,
    )
}

/// Whether `f` is exactly the escape field of the given inputs: outer length
/// `width`, each column of length `height`, and every cell the escape count
/// of its pixel's sample point.
pub open spec fn field_matches(
    f: Seq<Seq<usize>>,
    rect: PlaneRect,
    max_iters: nat,
    width: int,
    height: int,
) -> bool {
    &&& f.len() == width
    &&& forall|x: int| 0 <= x < width ==> (#[trigger] f[x]).len() == height
    &&& forall|x: int, y: int|
        0 <= x < width && 0 <= y < height ==> (#[trigger] f[x][y]) as nat == spec_cell(
            rect,
            max_iters,
            width,
            height,
            x,
            y,
        )
}

/// Law: the escape field is a function of its inputs alone — two fields that
/// both match the same rectangle, budget and dimensions are equal, so
/// repeating a computation reproduces the identical field.
pub proof fn lemma_field_deterministic(
    f1: Seq<Seq<usize>>,
    f2: Seq<Seq<usize>>,
    rect: PlaneRect,
    max_iters: nat,
    width: int,
    height: int,
)
    requires
        field_matches(f1, rect, max_iters, width, height),
        field_matches(f2, rect, max_iters, width, height),
    ensures
        f1 == f2,
{
    assert forall|x: int| 0 <= x < width implies f1[x] =~= f2[x] by {
        assert(f1[x].len() == height);
        assert(f2[x].len() == height);
        assert forall|y: int| 0 <= y < height implies f1[x][y] == f2[x][y] by {
            assert(f1[x][y] as nat == spec_cell(rect, max_iters, width, height, x, y));
            assert(f2[x][y] as nat == spec_cell(rect, max_iters, width, height, x, y));
        }
    }
    assert(f1 =~~= f2);
}

/// The plane coordinate sampled for pixel index `idx` of `dim` along the
/// axis running from `lo` to `hi`.
pub fn map_coord(lo: Fixed, hi: Fixed, idx: usize, dim: usize) -> (r: Fixed)
    requires
        lo.wf(),
        hi.wf(),
        idx < dim,
    ensures
        r.wf(),
        r@ == spec_map_coord(lo@, hi@, idx as int, dim as int),
{
    proof {
        assert(SCALE as u128 == 0x1_0000_0000);
        assert(SCALE as int == 0x1_0000_0000);
    }
    let num: u128 = (idx as u128) * (SCALE as u128);
    let frac: u128 = num / (dim as u128);
    proof {
        vstd::arithmetic::div_mod::lemma_multiply_divide_lt(
            num as int,
            dim as int,
            SCALE as int,
        );
    }
    let diff: i128 = (hi.raw as i128) - (lo.raw as i128);
    let fr: i128 = frac as i128;
    assert(-0x1_0000_0000_0000_0000_0000_0000 <= diff * fr
        <= 0x1_0000_0000_0000_0000_0000_0000) by (nonlinear_arith)
        requires
            -0x8000_0000_0000_0000 <= diff <= 0x8000_0000_0000_0000,
            0 <= fr <= 0x1_0000_0000,
    ;
    let scaled: i128 = div_scale(diff * fr);
    Fixed { raw: saturate(scaled + (lo.raw as i128)) }
}

/// Compute the escape field of a `width * height` pixel grid over `rect`
/// under the shared iteration budget `max_iters`.
///
/// The field is indexed `field[x][y]`: the outer vector has one column per
/// pixel of the x axis, each of length `height`. A zero `width` or `height`
/// yields an empty field, and every cell lies in `[0, max_iters]`.
pub fn compute(max_iters: usize, rect: &PlaneRect, width: usize, height: usize) -> (field: Vec<
    Vec<usize>,
>)
    requires
        rect.wf(),
    ensures
        field_matches(field.deep_view(), *rect, max_iters as nat, width as int, height as int),
        field@.len() == width as int,
        forall|x: int| 0 <= x < width ==> (#[trigger] field@[x])@.len() == height as int,
        forall|x: int, y: int|
            0 <= x < width && 0 <= y < height ==> (#[trigger] field@[x]@[y]) <= max_iters,
{
    let mut field: Vec<Vec<usize>> = Vec::new();
    let mut x: usize = 0;
    while x < width
        invariant
            rect.wf(),
            x <= width,
            field@.len() == x as int,
            forall|i: int| 0 <= i < x ==> (#[trigger] field@[i])@.len() == height as int,
            forall|i: int, j: int|
                0 <= i < x && 0 <= j < height ==> (#[trigger] field@[i]@[j]) as nat == spec_cell(
                    *rect,
                    max_iters as nat,
                    width as int,
                    height as int,
                    i,
                    j,
                ),
            forall|i: int, j: int|
                0 <= i < x && 0 <= j < height ==> (#[trigger] field@[i]@[j]) <= max_iters,
        decreases width - x,
    {
        let cx = map_coord(rect.x_min, rect.x_max, x, width);
        let mut column: Vec<usize> = Vec::new();
        let mut y: usize = 0;
        while y < height
            invariant
                rect.wf(),
                cx.wf(),
                x < width,
                y <= height,
                cx@ == spec_map_coord(rect.x_min@, rect.x_max@, x as int, width as int),
                column@.len() == y as int,
                forall|j: int|
                    0 <= j < y ==> (#[trigger] column@[j]) as nat == spec_cell(
                        *rect,
                        max_iters as nat,
                        width as int,
                        height as int,
                        x as int,
                        j,
                    ),
                forall|j: int| 0 <= j < y ==> (#[trigger] column@[j]) <= max_iters,
            decreases height - y,
        {
            let cy = map_coord(rect.y_min, rect.y_max, y, height);
            let count = escape_count(cx, cy, max_iters);
            column.push(count);
            y = y + 1;
        }
        field.push(column);
        x = x + 1;
    }
    proof {
        assert(forall|i: int, j: int|
            0 <= i < width && 0 <= j < height ==> field.deep_view()[i][j] == (
            #[trigger] field@[i]@[j]));
    }
    field
}

} // verus!
