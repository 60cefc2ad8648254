use vstd::prelude::*;

use crate::ratio::{widening_product, Ratio};

verus! {

/// Physical page width of the target document, in millimetres.
pub const A4_WIDTH_MM: u32 = 210;

/// Physical page height of the target document, in millimetres.
pub const A4_HEIGHT_MM: u32 = 297;

/// Margin applied on every side of a page, in millimetres.
pub const DEFAULT_MARGIN_MM: u32 = 10;

/// Pixel density assumed when converting pixel sizes to physical sizes.
pub const DEFAULT_DPI: u32 = 300;

/// One inch is exactly 25.4 mm; this is that length in tenths of a millimetre.
pub const TENTH_MM_PER_INCH: u32 = 254;

/// The orientation chosen for one image on its page.
#[derive(Clone, Copy, Debug, PartialEq, Eq, Structural)]
pub enum PageRotation {
    Unrotated,
    Clockwise90,
}

/// The placement parameters computed for one image: a uniform scale factor
/// (never above one), an orientation, and the assumptions the computation was
/// made under.
#[derive(Clone, Copy, Debug, PartialEq, Eq, Structural)]
pub struct PageLayoutDecision {
    pub scale: Ratio,
    pub rotation: PageRotation,
    pub dpi: u32,
    pub usable_width_mm: u32,
    pub usable_height_mm: u32,
}

/// `an / ad <= bn / bd` for positive denominators, by cross multiplication.
pub open spec fn rat_le(an: int, ad: int, bn: int, bd: int) -> bool {
    an * bd <= bn * ad
}

/// Numerator of the pixel-to-physical conversion: an image side of `px`
/// pixels at `dpi` dots per inch measures `px * 254 / (dpi * 10)` mm.
pub open spec fn side_tenths(px: int) -> int {
    px * TENTH_MM_PER_INCH as int
}

/// Numerator of `usable_mm` divided by the physical size of a side, so that
/// the fit ratio of that side is `area_scaled(u, dpi) / side_tenths(px)`.
pub open spec fn area_scaled(usable_mm: int, dpi: int) -> int {
    usable_mm * dpi * 10
}

/// Numerator of the unrotated scale: the smaller of the two per-axis ratios
/// `uw / phys_w` and `uh / phys_h`.
pub open spec fn unrot_num(w: int, h: int, uw: int, uh: int, dpi: int) -> int {
    if rat_le(area_scaled(uw, dpi), side_tenths(w), area_scaled(uh, dpi), side_tenths(h)) {
        area_scaled(uw, dpi)
    } else {
        area_scaled(uh, dpi)
    }
}

/// Denominator of the unrotated scale.
pub open spec fn unrot_den(w: int, h: int, uw: int, uh: int, dpi: int) -> int {
    if rat_le(area_scaled(uw, dpi), side_tenths(w), area_scaled(uh, dpi), side_tenths(h)) {
        side_tenths(w)
    } else {
        side_tenths(h)
    }
}

/// Numerator of the scale after a clockwise quarter turn: the image's width
/// and height swap roles, so the per-axis ratios are `uw / phys_h` and
/// `uh / phys_w`.
pub open spec fn rot_num(w: int, h: int, uw: int, uh: int, dpi: int) -> int {
    if rat_le(area_scaled(uw, dpi), side_tenths(h), area_scaled(uh, dpi), side_tenths(w)) {
        area_scaled(uw, dpi)
    } else {
        area_scaled(uh, dpi)
    }
}

/// Denominator of the rotated scale.
pub open spec fn rot_den(w: int, h: int, uw: int, uh: int, dpi: int) -> int {
    if rat_le(area_scaled(uw, dpi), side_tenths(h), area_scaled(uh, dpi), side_tenths(w)) {
        side_tenths(h)
    } else {
        side_tenths(w)
    }
}

/// The quarter turn is taken exactly when it yields a strictly greater scale;
/// a tie keeps the image unrotated.
pub open spec fn spec_rotation_wins(w: int, h: int, uw: int, uh: int, dpi: int) -> bool {
    unrot_num(w, h, uw, uh, dpi) * rot_den(w, h, uw, uh, dpi)
        < rot_num(w, h, uw, uh, dpi) * unrot_den(w, h, uw, uh, dpi)
}

/// Numerator of the scale of the chosen orientation, before the cap at one.
pub open spec fn chosen_num(w: int, h: int, uw: int, uh: int, dpi: int) -> int {
    if spec_rotation_wins(w, h, uw, uh, dpi) {
        rot_num(w, h, uw, uh, dpi)
    } else {
        unrot_num(w, h, uw, uh, dpi)
    }
}

/// Denominator of the scale of the chosen orientation.
pub open spec fn chosen_den(w: int, h: int, uw: int, uh: int, dpi: int) -> int {
    if spec_rotation_wins(w, h, uw, uh, dpi) {
        rot_den(w, h, uw, uh, dpi)
    } else {
        unrot_den(w, h, uw, uh, dpi)
    }
}

/// Numerator of the effective scale: capped at one after the orientation has
/// been selected, never before.
pub open spec fn capped_num(w: int, h: int, uw: int, uh: int, dpi: int) -> int {
    if chosen_num(w, h, uw, uh, dpi) > chosen_den(w, h, uw, uh, dpi) {
        chosen_den(w, h, uw, uh, dpi)
    } else {
        chosen_num(w, h, uw, uh, dpi)
    }
}

/// The full layout decision for an image of `w` by `h` pixels against a
/// usable area of `uw` by `uh` millimetres at `dpi` dots per inch.
pub open spec fn layout_spec(w: u32, h: u32, uw: u32, uh: u32, dpi: u32) -> PageLayoutDecision {
    PageLayoutDecision {
        scale: Ratio {
            num: capped_num(w as int, h as int, uw as int, uh as int, dpi as int) as u64,
            den: chosen_den(w as int, h as int, uw as int, uh as int, dpi as int) as u64,
        },
        rotation: if spec_rotation_wins(w as int, h as int, uw as int, uh as int, dpi as int) {
            PageRotation::Clockwise90
        } else {
            PageRotation::Unrotated
        },
        dpi,
        usable_width_mm: uw,
        usable_height_mm: uh,
    }
}

/// The decision for an image against the default page: the fixed page size
/// with the default margin subtracted on each side, at the default density.
pub open spec fn default_layout_spec(w: u32, h: u32) -> PageLayoutDecision {
    layout_spec(
        w,
        h,
        (A4_WIDTH_MM - 2 * DEFAULT_MARGIN_MM) as u32,
        (A4_HEIGHT_MM - 2 * DEFAULT_MARGIN_MM) as u32,
        DEFAULT_DPI,
    )
}

/// Computes the fit-maximising scale and orientation for one image.
///
/// The scale of an orientation is the smaller of the two per-axis ratios of
/// usable size to physical image size; the orientation with the strictly
/// greater scale wins, ties keep the image unrotated, and the winning scale
/// is then capped at one.
pub fn plan_page_layout(
    width_px: u32,
    height_px: u32,
    usable_width_mm: u32,
    usable_height_mm: u32,
    dpi: u32,
) -> (r: PageLayoutDecision)
    requires
        1 <= width_px,
        1 <= height_px,
        1 <= usable_width_mm,
        1 <= usable_height_mm,
        1 <= dpi,
        area_scaled(usable_width_mm as int, dpi as int) <= u64::MAX as int,
        area_scaled(usable_height_mm as int, dpi as int) <= u64::MAX as int,
    ensures
        r == layout_spec(width_px, height_px, usable_width_mm, usable_height_mm, dpi),
        r.scale.wf(),
        r.scale.spec_at_most_one(),
{
    let uq: u64 = scaled_area(usable_width_mm, dpi);
    let vq: u64 = scaled_area(usable_height_mm, dpi);
    let a: u64 = (width_px as u64) * (TENTH_MM_PER_INCH as u64);
    let b: u64 = (height_px as u64) * (TENTH_MM_PER_INCH as u64);

    let unrot_first: bool = widening_product(uq, b) <= widening_product(vq, a);
    let (un_n, un_d): (u64, u64) = if unrot_first { (uq, a) } else { (vq, b) };

    let rot_first: bool = widening_product(uq, a) <= widening_product(vq, b);
    let (ro_n, ro_d): (u64, u64) = if rot_first { (uq, b) } else { (vq, a) };

    let wins: bool = widening_product(un_n, ro_d) < widening_product(ro_n, un_d);
    let (sc_n, sc_d): (u64, u64) = if wins { (ro_n, ro_d) } else { (un_n, un_d) };
    let capped: u64 = if sc_n > sc_d { sc_d } else { sc_n };

    PageLayoutDecision {
        scale: Ratio { num: capped, den: sc_d },
        rotation: if wins {
            PageRotation::Clockwise90
        } else {
            PageRotation::Unrotated
        },
        dpi,
        usable_width_mm,
        usable_height_mm,
    }
}

/// Computes the fit-maximising decision against the default page geometry.
pub fn plan_page_layout_default(width_px: u32, height_px: u32) -> (r: PageLayoutDecision)
    requires
        1 <= width_px,
        1 <= height_px,
    ensures
        r == default_layout_spec(width_px, height_px),
        r.scale.wf(),
        r.scale.spec_at_most_one(),
{
    let usable_w: u32 = A4_WIDTH_MM - 2 * DEFAULT_MARGIN_MM;
    let usable_h: u32 = A4_HEIGHT_MM - 2 * DEFAULT_MARGIN_MM;
    plan_page_layout(width_px, height_px, usable_w, usable_h, DEFAULT_DPI)
}

/// The exact value of `usable_mm * dpi * 10` under the caller's bound.
fn scaled_area(usable_mm: u32, dpi: u32) -> (r: u64)
    requires
        area_scaled(usable_mm as int, dpi as int) <= u64::MAX as int,
    ensures
        r == area_scaled(usable_mm as int, dpi as int),
{
    proof {
        assert(usable_mm as int * dpi as int <= u64::MAX as int) by (nonlinear_arith)
            requires
                usable_mm as int * dpi as int * 10 <= u64::MAX as int,
                0 <= usable_mm as int,
                0 <= dpi as int,
        ;
    }
    (usable_mm as u64) * (dpi as u64) * 10
}

} // verus!

verus! {

/// Planning is idempotent: the decision is a function of the image's pixel
/// size, the usable area, and the density alone, so re-running the planner
/// on identical inputs yields an identical decision.
pub proof fn lemma_planning_deterministic(
    w: u32,
    h: u32,
    uw: u32,
    uh: u32,
    dpi: u32,
    d1: PageLayoutDecision,
    d2: PageLayoutDecision,
)
    requires
        d1 == layout_spec(w, h, uw, uh, dpi),
        d2 == layout_spec(w, h, uw, uh, dpi),
    ensures
        d1 == d2,
{
}

} // verus!

verus! {

/// The effective scale never exceeds one, even when both orientations'
/// uncapped ratios allow enlargement, and its denominator is positive.
pub proof fn lemma_scale_never_above_one(w: u32, h: u32, uw: u32, uh: u32, dpi: u32)
    requires
        1 <= w,
        1 <= h,
        1 <= uw,
        1 <= uh,
        1 <= dpi,
        area_scaled(uw as int, dpi as int) <= u64::MAX as int,
        area_scaled(uh as int, dpi as int) <= u64::MAX as int,
    ensures
        layout_spec(w, h, uw, uh, dpi).scale.wf(),
        layout_spec(w, h, uw, uh, dpi).scale.spec_at_most_one(),
{
    let wi: int = w as int;
    let hi: int = h as int;
    let uwi: int = uw as int;
    let uhi: int = uh as int;
    let di: int = dpi as int;
    assert(0 <= area_scaled(uwi, di)) by (nonlinear_arith)
        requires
            0 <= uwi,
            0 <= di,
    ;
    assert(0 <= area_scaled(uhi, di)) by (nonlinear_arith)
        requires
            0 <= uhi,
            0 <= di,
    ;
    assert(1 <= side_tenths(wi) <= u64::MAX as int);
    assert(1 <= side_tenths(hi) <= u64::MAX as int);
    assert(1 <= chosen_den(wi, hi, uwi, uhi, di) <= u64::MAX as int);
    assert(0 <= capped_num(wi, hi, uwi, uhi, di) <= chosen_den(wi, hi, uwi, uhi, di));
}

} // verus!
