use images_to_pdf::layout::{
    plan_page_layout, plan_page_layout_default, PageRotation, A4_HEIGHT_MM, A4_WIDTH_MM,
    DEFAULT_DPI, DEFAULT_MARGIN_MM,
};
use images_to_pdf::ratio::Ratio;

const USABLE_W: u32 = A4_WIDTH_MM - 2 * DEFAULT_MARGIN_MM;
const USABLE_H: u32 = A4_HEIGHT_MM - 2 * DEFAULT_MARGIN_MM;

// The fit ratio of one axis is (usable_mm * dpi * 10) / (px * 254); the
// decision keeps that fraction unreduced, so expected values below are exact.

#[test]
fn portrait_image_stays_unrotated_when_its_scale_is_greater() {
    // 3000 x 4000 px at 300 dpi is 254 x 338.7 mm. Unrotated the scale is
    // min(190/254, 277/338.67); rotated it is min(190/338.67, 277/254),
    // which is strictly smaller, so the image stays unrotated.
    let d = plan_page_layout(3000, 4000, USABLE_W, USABLE_H, DEFAULT_DPI);
    assert_eq!(d.rotation, PageRotation::Unrotated);
    // 190 mm * 300 dpi * 10 = 570000; 3000 px * 254 = 762000.
    assert_eq!(d.scale, Ratio { num: 570000, den: 762000 });
}

#[test]
fn landscape_image_is_rotated_when_that_scale_is_strictly_greater() {
    // The same image on its side: rotating it swaps the axes back into the
    // page's proportions and yields a strictly greater scale.
    let d = plan_page_layout(4000, 3000, USABLE_W, USABLE_H, DEFAULT_DPI);
    assert_eq!(d.rotation, PageRotation::Clockwise90);
    assert_eq!(d.scale, Ratio { num: 570000, den: 762000 });
}

#[test]
fn small_wide_image_rotates_and_is_capped_at_one() {
    // 100 x 50 px at 300 dpi is 8.47 x 4.23 mm; both orientations would
    // allow enlargement, the rotated one more, so the decision is rotated
    // with the scale capped at one.
    let d = plan_page_layout(100, 50, USABLE_W, USABLE_H, DEFAULT_DPI);
    assert_eq!(d.rotation, PageRotation::Clockwise90);
    assert_eq!(d.scale.num, d.scale.den);
}

#[test]
fn small_tall_image_stays_unrotated_and_is_capped_at_one() {
    // 50 x 300 px: tall and narrow on a portrait page; the unrotated scale
    // is the greater one, and it is capped at one.
    let d = plan_page_layout(50, 300, USABLE_W, USABLE_H, DEFAULT_DPI);
    assert_eq!(d.rotation, PageRotation::Unrotated);
    assert_eq!(d.scale.num, d.scale.den);
}

#[test]
fn scale_never_exceeds_one() {
    for (w, h) in [(1, 1), (10, 10), (100, 50), (50, 300), (4000, 3000), (123, 456)] {
        let d = plan_page_layout(w, h, USABLE_W, USABLE_H, DEFAULT_DPI);
        assert!(d.scale.num <= d.scale.den);
        assert!(d.scale.den > 0);
    }
}

#[test]
fn square_image_tie_keeps_no_rotation() {
    // For a square image both orientations give the same scale; the tie is
    // broken in favour of no rotation.
    let d = plan_page_layout(200, 200, USABLE_W, USABLE_H, DEFAULT_DPI);
    assert_eq!(d.rotation, PageRotation::Unrotated);
}

#[test]
fn cap_is_applied_after_the_orientation_is_chosen() {
    // 2000 x 150 px at 300 dpi is 169.3 x 12.7 mm. Unrotated both axes fit
    // with room to spare (scale above one); rotated the long side meets the
    // page height more tightly. The rotated scale (277/169.33 = 1.64) is
    // greater than the unrotated one (190/169.33 = 1.12), so rotation wins
    // before capping, and only then is the scale capped at one.
    let d = plan_page_layout(2000, 150, USABLE_W, USABLE_H, DEFAULT_DPI);
    assert_eq!(d.rotation, PageRotation::Clockwise90);
    assert_eq!(d.scale.num, d.scale.den);
}

#[test]
fn planning_is_reproducible() {
    let a = plan_page_layout(1234, 777, USABLE_W, USABLE_H, DEFAULT_DPI);
    let b = plan_page_layout(1234, 777, USABLE_W, USABLE_H, DEFAULT_DPI);
    assert_eq!(a, b);
}

#[test]
fn default_planner_uses_the_default_geometry() {
    let d = plan_page_layout_default(3000, 4000);
    assert_eq!(d.usable_width_mm, USABLE_W);
    assert_eq!(d.usable_height_mm, USABLE_H);
    assert_eq!(d.dpi, DEFAULT_DPI);
    assert_eq!(d, plan_page_layout(3000, 4000, USABLE_W, USABLE_H, DEFAULT_DPI));
}

#[test]
fn decision_records_its_assumptions() {
    let d = plan_page_layout(10, 10, 100, 50, 72);
    assert_eq!(d.usable_width_mm, 100);
    assert_eq!(d.usable_height_mm, 50);
    assert_eq!(d.dpi, 72);
}

#[test]
fn enlargement_beats_rotation_before_the_cap() {
    // 100 x 3000 px at 300 dpi is 8.47 x 254 mm. Unrotated it could be
    // enlarged (scale 277/254 = 1.09); rotated it must shrink (scale
    // 190/254 = 0.75). The comparison happens before the cap, so the
    // decision is no rotation with the scale then capped at one — not the
    // rotated orientation.
    let d = plan_page_layout(100, 3000, USABLE_W, USABLE_H, DEFAULT_DPI);
    assert_eq!(d.rotation, PageRotation::Unrotated);
    assert_eq!(d.scale, Ratio { num: 762000, den: 762000 });
}

#[test]
fn ratio_comparisons_are_exact() {
    let third = Ratio { num: 1, den: 3 };
    let sixth_pair = Ratio { num: 2, den: 6 };
    let half = Ratio { num: 1, den: 2 };
    assert!(third.le(sixth_pair));
    assert!(sixth_pair.le(third));
    assert!(!third.lt(sixth_pair));
    assert!(third.lt(half));
    assert!(!half.lt(third));
}

#[test]
fn rotation_decision_maximises_the_scale() {
    // Whatever orientation is chosen, its uncapped scale is at least the
    // other orientation's scale (on an image where neither is capped).
    let d = plan_page_layout(3000, 4000, USABLE_W, USABLE_H, DEFAULT_DPI);
    let rotated_scale = Ratio { num: 570000, den: 1016000 };
    assert!(rotated_scale.le(d.scale));
}
