use docstruct::base::confidence::{adjust_confidence, score_confidence};
use docstruct::base::fixed::{isqrt, ratio_millionths};
use docstruct::base::geometry::BBox;
use docstruct::base::model::PageClass;
use docstruct::base::page_classifier::{classify_page, PageSignals};

#[test]
fn computes_iou() {
    let a = BBox::new(0, 0, 10, 10);
    let b = BBox::new(5, 5, 15, 15);
    let iou = a.iou(&b);
    assert_eq!(iou as u64, 25 * 1_000_000 / 175);
}

#[test]
fn classifies_digital_page() {
    let signals = PageSignals {
        parser_glyphs: 420,
        ocr_glyphs: 100,
        image_coverage: 200_000,
        ocr_text_density: 180_000,
    };
    assert_eq!(classify_page(signals), PageClass::Digital);
}

#[test]
fn classifies_scanned_page() {
    let signals = PageSignals {
        parser_glyphs: 20,
        ocr_glyphs: 300,
        image_coverage: 620_000,
        ocr_text_density: 560_000,
    };
    assert_eq!(classify_page(signals), PageClass::Scanned);
}

#[test]
fn classifies_every_rule() {
    let page = |p: usize, o: usize, cov: u32, dens: u32| {
        classify_page(PageSignals {
            parser_glyphs: p,
            ocr_glyphs: o,
            image_coverage: cov,
            ocr_text_density: dens,
        })
    };
    assert_eq!(page(120, 60, 0, 0), PageClass::Digital);
    assert_eq!(page(119, 0, 0, 0), PageClass::Hybrid);
    assert_eq!(page(120, 61, 0, 0), PageClass::Hybrid);
    assert_eq!(page(10, 20, 300_001, 0), PageClass::Scanned);
    assert_eq!(page(10, 20, 300_000, 350_000), PageClass::Hybrid);
    assert_eq!(page(10, 20, 0, 350_001), PageClass::Scanned);
    assert_eq!(page(221, 200, 249_999, 249_999), PageClass::Digital);
    assert_eq!(page(220, 200, 0, 0), PageClass::Hybrid);
    assert_eq!(page(221, 200, 250_000, 0), PageClass::Hybrid);
    assert_eq!(page(5, 5, 0, 0), PageClass::Hybrid);
    assert_eq!(page(usize::MAX, usize::MAX, 0, 0), PageClass::Digital);
    assert_eq!(page(usize::MAX - 1, usize::MAX, 1_000_000, 0), PageClass::Scanned);
}

#[test]
fn box_measures() {
    let b = BBox::new(10, 20, 40, 60);
    assert_eq!(b.width(), 30);
    assert_eq!(b.height(), 40);
    assert_eq!(b.area(), 1200);
    assert_eq!(b.center(), (2500, 4000));
    let empty = BBox::new(40, 60, 10, 20);
    assert_eq!(empty.width(), 0);
    assert_eq!(empty.height(), 0);
    assert_eq!(empty.area(), 0);
    let wide = BBox::new(i32::MIN, i32::MIN, i32::MAX, i32::MAX);
    assert_eq!(wide.width(), u32::MAX);
    assert_eq!(wide.area(), (u32::MAX as u64) * (u32::MAX as u64));
}

#[test]
fn box_union_encloses_both() {
    let a = BBox::new(0, 0, 50, 50);
    let b = BBox::new(10, -5, 60, 40);
    assert_eq!(a.union(&b), BBox::new(0, -5, 60, 50));
    assert_eq!(a.union(&a), a);
}

#[test]
fn iou_is_a_ratio_and_one_only_for_equal_boxes() {
    let boxes = [
        BBox::new(0, 0, 10, 10),
        BBox::new(0, 0, 10, 11),
        BBox::new(5, 5, 15, 15),
        BBox::new(-3, -3, 2, 2),
        BBox::new(100, 100, 200, 200),
        BBox::new(i32::MIN, i32::MIN, i32::MAX, i32::MAX),
    ];
    for a in boxes.iter() {
        for b in boxes.iter() {
            let iou = a.iou(b);
            assert!(iou <= 1_000_000);
            assert_eq!(iou == 1_000_000, a == b);
            assert_eq!(iou, b.iou(a));
        }
    }
    let empty = BBox::new(5, 5, 5, 9);
    assert_eq!(empty.iou(&empty), 0);
    assert_eq!(BBox::new(0, 0, 10, 10).iou(&BBox::new(20, 20, 30, 30)), 0);
    assert_eq!(BBox::new(0, 0, 10, 10).iou(&BBox::new(0, 0, 10, 20)), 500_000);
}

#[test]
fn center_distance_in_hundredths() {
    let a = BBox::new(0, 0, 50, 50);
    let b = BBox::new(10, 10, 60, 60);
    // centres (25, 25) and (35, 35): the distance is 10 * sqrt(2) = 14.142...
    assert_eq!(a.center_distance(&b), 1414);
    assert_eq!(a.center_distance(&a), 0);
    let c = BBox::new(0, 0, 3, 0);
    let d = BBox::new(0, 0, 0, 4);
    // centres (1.5, 0) and (0, 2): the distance is 2.5
    assert_eq!(c.center_distance(&d), 250);
    let far = BBox::new(i32::MIN, i32::MIN, i32::MIN, i32::MIN);
    let other = BBox::new(i32::MAX, i32::MAX, i32::MAX, i32::MAX);
    // 4294967295 * sqrt(2) * 100, rounded down
    assert_eq!(far.center_distance(&other), 607_400_099_853);
}

#[test]
fn integer_square_root() {
    assert_eq!(isqrt(0), 0);
    assert_eq!(isqrt(1), 1);
    assert_eq!(isqrt(3), 1);
    assert_eq!(isqrt(4), 2);
    assert_eq!(isqrt(99), 9);
    assert_eq!(isqrt(100), 10);
    assert_eq!(isqrt(u128::MAX), u64::MAX);
    assert_eq!(isqrt((u64::MAX as u128) * (u64::MAX as u128) - 1), u64::MAX - 1);
}

#[test]
fn ratios_round_down_and_stop_at_one() {
    assert_eq!(ratio_millionths(1, 3), 333_333);
    assert_eq!(ratio_millionths(2, 3), 666_666);
    assert_eq!(ratio_millionths(3, 3), 1_000_000);
    assert_eq!(ratio_millionths(7, 3), 1_000_000);
    assert_eq!(ratio_millionths(0, 3), 0);
    assert_eq!(ratio_millionths(5, 0), 0);
    assert_eq!(ratio_millionths(u64::MAX, u128::MAX), 0);
    assert_eq!(ratio_millionths(u64::MAX - 1, u64::MAX as u128), 999_999);
}

#[test]
fn confidence_formula() {
    assert_eq!(score_confidence(true, true, Some(1_000_000), true), 1_000_000);
    assert_eq!(score_confidence(true, true, Some(900_000), false), 900_000);
    assert_eq!(score_confidence(true, true, Some(899_999), true), 950_000);
    assert_eq!(score_confidence(true, true, Some(700_000), false), 750_000);
    assert_eq!(score_confidence(true, true, Some(699_999), true), 600_000);
    assert_eq!(score_confidence(true, false, None, true), 500_000);
    assert_eq!(score_confidence(false, true, None, true), 400_000);
    assert_eq!(score_confidence(false, false, Some(0), false), 0);
    assert_eq!(score_confidence(false, false, None, true), 100_000);
    for &p in &[false, true] {
        for &o in &[false, true] {
            for &g in &[false, true] {
                for s in [None, Some(0), Some(700_000), Some(900_000), Some(u32::MAX)] {
                    assert!(score_confidence(p, o, s, g) <= 1_000_000);
                }
            }
        }
    }
}

#[test]
fn confidence_adjustments_stay_in_range() {
    assert_eq!(adjust_confidence(500_000, -200_000), 300_000);
    assert_eq!(adjust_confidence(100_000, -200_000), 0);
    assert_eq!(adjust_confidence(980_000, 80_000), 1_000_000);
    assert_eq!(adjust_confidence(400_000, 80_000), 480_000);
    assert_eq!(adjust_confidence(u32::MAX, i32::MAX), 1_000_000);
    assert_eq!(adjust_confidence(0, i32::MIN), 0);
}
