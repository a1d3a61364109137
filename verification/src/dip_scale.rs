//! DIP to physical-pixel conversion for integer window sizes.
use vstd::prelude::*;

verus! {

/// The DPI at which one DIP is one physical pixel.
pub const REFERENCE_DPI: u32 = 96;

/// A window's DIP to physical-pixel conversion, carried as the DPI it was
/// derived from. The DPI is never zero.
#[derive(Clone, Copy, Debug, PartialEq, Eq, Structural)]
pub struct DipScale {
    dpi: u32,
}

/// `dip * dpi / 96`, rounded to nearest with halves away from zero, saturated
/// to the `i32` range.
pub open spec fn mul_div_round(dip: int, dpi: int) -> int {
    let scaled = dip * dpi;
    let q = if scaled >= 0 { (scaled + 48) / 96 } else { -((-scaled + 48) / 96) };
    if q > i32::MAX { i32::MAX as int } else if q < i32::MIN { i32::MIN as int } else { q }
}

impl DipScale {
    pub closed spec fn spec_dpi(self) -> u32 {
        self.dpi
    }

    /// 100%: every conversion is the identity.
    pub fn identity() -> (s: Self)
        ensures
            s.spec_dpi() == REFERENCE_DPI,
    {
        DipScale { dpi: REFERENCE_DPI }
    }

    /// Construct from an OS-reported DPI; zero falls back to 100%.
    pub fn from_dpi(dpi: u32) -> (s: Self)
        ensures
            s.spec_dpi() == (if dpi == 0 { REFERENCE_DPI } else { dpi }),
    {
        if dpi == 0 {
            return Self::identity();
        }
        Self { dpi }
    }

    /// The DPI this scale was built from.
    pub fn dpi(self) -> (d: u32)
        ensures
            d == self.spec_dpi(),
    {
        self.dpi
    }

    /// Physical dimensions for a DIP window rectangle, each axis converted
    /// independently by `mul_div_round`.
    pub fn window_size_to_physical(self, dip: (i32, i32)) -> (r: (i32, i32))
        ensures
            r.0 == mul_div_round(dip.0 as int, self.spec_dpi() as int),
            r.1 == mul_div_round(dip.1 as int, self.spec_dpi() as int),
    {
        (self.length_to_physical_i32(dip.0), self.length_to_physical_i32(dip.1))
    }

    fn length_to_physical_i32(self, dip: i32) -> (r: i32)
        ensures
            r == mul_div_round(dip as int, self.spec_dpi() as int),
    {
        let d: i64 = dip as i64;
        let p: i64 = self.dpi as i64;
        assert(-0x7fff_ffff_8000_0000 <= d * p <= 0x7fff_fffe_8000_0001) by (nonlinear_arith)
            requires
                -0x8000_0000 <= d < 0x8000_0000,
                0 <= p < 0x1_0000_0000,
        ;
        let scaled: i64 = d * p;
        let half: i64 = 48;
        let q: i64 = if scaled >= 0 {
            (scaled + half) / 96
        } else {
            -((-scaled + half) / 96)
        };
        if q > i32::MAX as i64 {
            i32::MAX
        } else if q < i32::MIN as i64 {
            i32::MIN
        } else {
            q as i32
        }
    }
}

/// 100%, so that an unattached widget tree converts as the identity.
impl Default for DipScale {
    fn default() -> (s: Self)
        ensures
            s.spec_dpi() == REFERENCE_DPI,
    {
        Self::identity()
    }
}

/// At the reference DPI every window size converts to itself.
pub proof fn law_reference_dpi_is_the_identity(dip: i32)
    ensures
        mul_div_round(dip as int, REFERENCE_DPI as int) == dip,
{
    let d = dip as int;
    if d >= 0 {
        assert((d * 96 + 48) / 96 == d) by (nonlinear_arith)
            requires
                d >= 0,
        ;
    } else {
        assert((-(d * 96) + 48) / 96 == -d) by (nonlinear_arith)
            requires
                d < 0,
        ;
    }
}

/// A conversion rounds `dip * dpi / 96` to the nearest integer, halves away
/// from zero, within the `i32` range: an unsaturated result is within half a
/// pixel of the exact value, and a saturated one is at least that far out.
pub proof fn law_conversion_rounds_to_nearest(dip: int, dpi: int)
    ensures
        ({
            let s = dip * dpi;
            let q = mul_div_round(dip, dpi);
            &&& i32::MIN <= q <= i32::MAX
            &&& (i32::MIN < q < i32::MAX && s >= 0) ==> 96 * q - 48 <= s < 96 * q + 48
            &&& (i32::MIN < q < i32::MAX && s < 0) ==> 96 * q - 48 < s <= 96 * q + 48
            &&& q == i32::MAX ==> s >= 96 * i32::MAX - 48
            &&& q == i32::MIN ==> s <= 96 * i32::MIN + 48
        }),
{
    let s = dip * dpi;
    if s >= 0 {
        let q0 = (s + 48) / 96;
        assert(96 * q0 <= s + 48 < 96 * q0 + 96) by (nonlinear_arith)
            requires
                s >= 0,
                q0 == (s + 48) / 96,
        ;
    } else {
        let q0 = (-s + 48) / 96;
        assert(96 * q0 <= -s + 48 < 96 * q0 + 96) by (nonlinear_arith)
            requires
                s < 0,
                q0 == (-s + 48) / 96,
        ;
    }
}

} // verus!
