use devtool::heatmap::{heatmap_extremes, HeatmapExtremes};

#[test]
fn least_value_is_found_at_its_first_cell() {
    let e = heatmap_extremes(&[90, 40, 70, 40, 95]);
    assert_eq!(e, HeatmapExtremes { min_index: 1, min: 40, max: 95 });
    assert!(e.has_contact());
    assert_eq!(e.cell(2), (1, 0));
}

#[test]
fn a_value_that_lowers_the_least_one_is_not_counted_as_greatest() {
    let e = heatmap_extremes(&[200, 100, 150]);
    assert_eq!(e, HeatmapExtremes { min_index: 1, min: 100, max: 150 });
    assert_eq!(e.cell(1), (0, 1));
}

#[test]
fn flat_heatmap_has_no_contact() {
    let e = heatmap_extremes(&[0x80; 12]);
    assert_eq!(e.min, 0x80);
    assert!(!e.has_contact());
    let e = heatmap_extremes(&[]);
    assert_eq!(e, HeatmapExtremes { min_index: 0, min: 255, max: 0 });
    assert!(!e.has_contact());
}
