use vstd::prelude::*;

use crate::fixed::div_scale;
use crate::fixed::saturate;
use crate::fixed::spec_div_scale;
use crate::fixed::spec_sat;
use crate::fixed::Fixed;
use crate::fixed::LIM;
use crate::fixed::SCALE;

verus! {

/// The squared escape radius in raw-squared units: `4 * SCALE * SCALE`,
/// i.e. the squared magnitude 4 of a complex number whose parts are raw
/// fixed-point values.
pub const ESCAPE_BOUND: i128 = 0x4_0000_0000_0000_0000;

/// Whether `zr + zi*i` lies strictly outside the escape radius 2, i.e.
/// whether its squared magnitude exceeds 4. Exact: no truncation is involved.
pub open spec fn spec_escaped(zr: int, zi: int) -> bool {
    zr * zr + zi * zi > ESCAPE_BOUND as int
}

/// Real part of one iteration step `z * z + c`: `zr^2 - zi^2 + cr`, with the
/// product truncated back to raw units and the sum saturated.
pub open spec fn spec_step_re(zr: int, zi: int, cr: int) -> int {
    spec_sat(spec_div_scale(zr * zr - zi * zi) + cr)
}

/// Imaginary part of one iteration step `z * z + c`: `2*zr*zi + ci`, with the
/// product truncated back to raw units and the sum saturated.
pub open spec fn spec_step_im(zr: int, zi: int, ci: int) -> int {
    spec_sat(spec_div_scale(2 * zr * zi) + ci)
}

/// Number of further iteration steps, starting from `z = zr + zi*i`, until
/// `z` escapes, capped at `fuel`: 0 if `z` has already escaped or the budget
/// is spent, otherwise one more than the count after one step.
pub open spec fn spec_escape_from(zr: int, zi: int, cr: int, ci: int, fuel: nat) -> nat
    decreases fuel,
{
    if spec_escaped(zr, zi) {
        0
    } else if fuel == 0 {
        0
    } else {
        1 + spec_escape_from(
            spec_step_re(zr, zi, cr),
            spec_step_im(zr, zi, ci),
            cr,
            ci,
            (fuel - 1) as nat,
        )
    }
}

/// The escape count of the point `c = cr + ci*i`: iteration starts at
/// `z = 0` and the magnitude test precedes each of the `max_iters` steps,
/// so the count is in `[0, max_iters]` and `max_iters` means "did not
/// escape within the budget".
pub open spec fn spec_escape_count(cr: int, ci: int, max_iters: nat) -> nat {
    spec_escape_from(0, 0, cr, ci, max_iters)
}

/// Law: a point already outside the escape radius (squared magnitude above
/// 4) yields count zero under a zero iteration budget. Iteration starts at
/// `z = 0`, so only a spent budget can yield zero; with a positive budget the
/// count of such a point is decided at the round after the first step.
pub proof fn lemma_outside_radius_zero_budget(cr: int, ci: int, max_iters: nat)
    requires
        cr * cr + ci * ci > ESCAPE_BOUND as int,
        max_iters == 0,
    ensures
        spec_escape_count(cr, ci, max_iters) == 0,
{
}

/// Law: the origin never escapes — its count is the whole budget. The step
/// keeps `z = 0` exactly: `0 * 0 + 0` truncates and saturates to `0`.
pub proof fn lemma_origin_never_escapes(max_iters: nat)
    ensures
        spec_escape_count(0, 0, max_iters) == max_iters,
{
    lemma_origin_escape_from(max_iters);
}

proof fn lemma_origin_escape_from(fuel: nat)
    ensures
        spec_escape_from(0, 0, 0, 0, fuel) == fuel,
    decreases fuel,
{
    assert(SCALE as int == 0x1_0000_0000);
    assert(!spec_escaped(0, 0));
    assert(spec_step_re(0, 0, 0) == 0);
    assert(spec_step_im(0, 0, 0) == 0);
    if fuel > 0 {
        lemma_origin_escape_from((fuel - 1) as nat);
    }
}

/// Law: the escape count is monotonically non-decreasing in the iteration
/// budget for a fixed point — a larger budget re-examines the same prefix of
/// iterations and can only add to the count.
pub proof fn lemma_escape_count_monotonic(cr: int, ci: int, m1: nat, m2: nat)
    requires
        m1 <= m2,
    ensures
        spec_escape_count(cr, ci, m1) <= spec_escape_count(cr, ci, m2),
{
    lemma_escape_from_monotonic(0, 0, cr, ci, m1, m2);
}

proof fn lemma_escape_from_monotonic(zr: int, zi: int, cr: int, ci: int, f1: nat, f2: nat)
    requires
        f1 <= f2,
    ensures
        spec_escape_from(zr, zi, cr, ci, f1) <= spec_escape_from(zr, zi, cr, ci, f2),
    decreases f1,
{
    if !spec_escaped(zr, zi) && f1 > 0 {
        lemma_escape_from_monotonic(
            spec_step_re(zr, zi, cr),
            spec_step_im(zr, zi, ci),
            cr,
            ci,
            (f1 - 1) as nat,
            (f2 - 1) as nat,
        );
    }
}

/// Law: the escape count never exceeds the iteration budget.
pub proof fn lemma_escape_count_bounded(cr: int, ci: int, max_iters: nat)
    ensures
        spec_escape_count(cr, ci, max_iters) <= max_iters,
{
    lemma_escape_from_bounded(0, 0, cr, ci, max_iters);
}

proof fn lemma_escape_from_bounded(zr: int, zi: int, cr: int, ci: int, fuel: nat)
    ensures
        spec_escape_from(zr, zi, cr, ci, fuel) <= fuel,
    decreases fuel,
{
    if !spec_escaped(zr, zi) && fuel > 0 {
        lemma_escape_from_bounded(
            spec_step_re(zr, zi, cr),
            spec_step_im(zr, zi, ci),
            cr,
            ci,
            (fuel - 1) as nat,
        );
    }
}

/// Whether `zr + zi*i` has escaped, decided exactly on raw values.
fn escapes(zr: i64, zi: i64) -> (r: bool)
    requires
        -LIM <= zr <= LIM,
        -LIM <= zi <= LIM,
    ensures
        r == spec_escaped(zr as int, zi as int),
{
    let a: i128 = zr as i128;
    let b: i128 = zi as i128;
    assert(0 <= a * a <= 0x1000_0000_0000_0000_0000_0000_0000_0000) by (nonlinear_arith)
        requires
            -0x4000_0000_0000_0000 <= a <= 0x4000_0000_0000_0000,
    ;
    assert(0 <= b * b <= 0x1000_0000_0000_0000_0000_0000_0000_0000) by (nonlinear_arith)
        requires
            -0x4000_0000_0000_0000 <= b <= 0x4000_0000_0000_0000,
    ;
    a * a + b * b > ESCAPE_BOUND
}

/// One iteration step `z * z + c` on raw fixed-point values.
fn step(zr: i64, zi: i64, cr: i64, ci: i64) -> (r: (i64, i64))
    requires
        -LIM <= zr <= LIM,
        -LIM <= zi <= LIM,
        -LIM <= cr <= LIM,
        -LIM <= ci <= LIM,
    ensures
        r.0 as int == spec_step_re(zr as int, zi as int, cr as int),
        r.1 as int == spec_step_im(zr as int, zi as int, ci as int),
        -LIM <= r.0 <= LIM,
        -LIM <= r.1 <= LIM,
{
    let a: i128 = zr as i128;
    let b: i128 = zi as i128;
    assert(0 <= a * a <= 0x1000_0000_0000_0000_0000_0000_0000_0000) by (nonlinear_arith)
        requires
            -0x4000_0000_0000_0000 <= a <= 0x4000_0000_0000_0000,
    ;
    assert(0 <= b * b <= 0x1000_0000_0000_0000_0000_0000_0000_0000) by (nonlinear_arith)
        requires
            -0x4000_0000_0000_0000 <= b <= 0x4000_0000_0000_0000,
    ;
    assert(-0x1000_0000_0000_0000_0000_0000_0000_0000 <= a * b
        <= 0x1000_0000_0000_0000_0000_0000_0000_0000) by (nonlinear_arith)
        requires
            -0x4000_0000_0000_0000 <= a <= 0x4000_0000_0000_0000,
            -0x4000_0000_0000_0000 <= b <= 0x4000_0000_0000_0000,
    ;
    assert(2 * (a * b) == 2 * a * b) by (nonlinear_arith);
    let re_part: i128 = div_scale(a * a - b * b);
    let im_part: i128 = div_scale(2 * (a * b));
    let nr: i64 = saturate(re_part + (cr as i128));
    let ni: i64 = saturate(im_part + (ci as i128));
    (nr, ni)
}

/// The escape count of `c = cx + cy*i` under the budget `max_iters`.
///
/// Starting from `z = 0`, each round first tests whether `|z| > 2` — if so
/// the round's index is the count — and otherwise applies `z <- z * z + c`;
/// after `max_iters` rounds the count is `max_iters` itself.
pub fn escape_count(cx: Fixed, cy: Fixed, max_iters: usize) -> (count: usize)
    requires
        cx.wf(),
        cy.wf(),
    ensures
        count as nat == spec_escape_count(cx@, cy@, max_iters as nat),
        count <= max_iters,
{
    let mut zr: i64 = 0;
    let mut zi: i64 = 0;
    let mut i: usize = 0;
    loop
        invariant
            cx.wf(),
            cy.wf(),
            i <= max_iters,
            -LIM <= zr <= LIM,
            -LIM <= zi <= LIM,
            spec_escape_count(cx@, cy@, max_iters as nat) == i + spec_escape_from(
                zr as int,
                zi as int,
                cx@,
                cy@,
                (max_iters - i) as nat,
            ),
        decreases max_iters - i,
    {
        if escapes(zr, zi) {
            return i;
        }
        if i == max_iters {
            return max_iters;
        }
        let next = step(zr, zi, cx.raw, cy.raw);
        zr = next.0;
        zi = next.1;
        i = i + 1;
    }
}

} // verus!
