use vstd::prelude::*;

verus! {

/// Number of raw units per whole unit: the fixed-point scale, 2^32.
pub const SCALE: i64 = 0x1_0000_0000;

/// Largest raw magnitude a `Fixed` may hold: 2^62 raw units, i.e. 2^30 whole
/// units. Arithmetic saturates here instead of wrapping.
pub const LIM: i64 = 0x4000_0000_0000_0000;

/// A dyadic fixed-point number: `raw` counts units of 1 / 2^32.
///
/// All arithmetic on `Fixed` values is exact except that products are
/// truncated toward zero to the nearest representable value and results are
/// saturated into `[-LIM, LIM]`.
#[derive(Clone, Copy, Debug, PartialEq, Eq, Structural)]
pub struct Fixed {
    pub raw: i64,
}

impl View for Fixed {
    type V = int;

    open spec fn view(&self) -> int {
        self.raw as int
    }
}

impl Fixed {
    /// A `Fixed` value is well formed when its magnitude is within the
    /// saturation bound.
    pub open spec fn wf(self) -> bool {
        -(LIM as int) <= self.raw as int <= LIM as int
    }

    /// The fixed-point value of `units` whole units, saturated to the
    /// representable range.
    pub fn from_int(units: i64) -> (r: Fixed)
        ensures
            r.wf(),
            r@ == spec_sat(units as int * SCALE as int),
    {
        proof {
            assert(SCALE as i128 == 0x1_0000_0000);
        }
        let wide: i128 = (units as i128) * (SCALE as i128);
        Fixed { raw: saturate(wide) }
    }

    /// The fixed-point value with the given raw count of 1 / 2^32 units,
    /// saturated to the representable range.
    pub fn from_raw(raw: i64) -> (r: Fixed)
        ensures
            r.wf(),
            r@ == spec_sat(raw as int),
    {
        Fixed { raw: saturate(raw as i128) }
    }
}

/// Clamp `v` into `[-LIM, LIM]`.
pub open spec fn spec_sat(v: int) -> int {
    if v > LIM as int {
        LIM as int
    } else if v < -(LIM as int) {
        -(LIM as int)
    } else {
        v
    }
}

/// Quotient of `v` by the scale, truncated toward zero.
pub open spec fn spec_div_scale(v: int) -> int {
    if v >= 0 {
        v / (SCALE as int)
    } else {
        -((-v) / (SCALE as int))
    }
}

/// Clamp a wide intermediate into the representable raw range.
pub(crate) fn saturate(v: i128) -> (r: i64)
    ensures
        r as int == spec_sat(v as int),
        -LIM <= r <= LIM,
{
    if v > LIM as i128 {
        LIM
    } else if v < -(LIM as i128) {
        -LIM
    } else {
        v as i64
    }
}

/// Divide a wide intermediate by the scale, truncating toward zero.
pub(crate) fn div_scale(v: i128) -> (r: i128)
    requires
        -0x2000_0000_0000_0000_0000_0000_0000_0000 <= v as int
            <= 0x2000_0000_0000_0000_0000_0000_0000_0000,
    ensures
        r as int == spec_div_scale(v as int),
{
    if v >= 0 {
        ((v as u128) / (SCALE as u128)) as i128
    } else {
        -((((-v) as u128) / (SCALE as u128)) as i128)
    }
}

} // verus!
