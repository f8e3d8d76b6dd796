use loom_cli::render::{column_heights, fit_line, flex_heights, FillCell};

#[test]
fn test_fill_cell_desired_height() {
    let fill = FillCell::new('A', 5);
    assert_eq!(fill.desired_height(80), 5);
    assert_eq!(fill.desired_height(0), 5);
    assert_eq!(fill.desired_height(u16::MAX), 5);
}

#[test]
fn test_fill_cell_desired_height_zero() {
    let fill = FillCell::new('A', 0);
    assert_eq!(fill.desired_height(80), 0);
}

#[test]
fn law_column_fits_area_example() {
    let heights = column_heights(&vec![3, 4, 5], 8);
    assert_eq!(heights, vec![3, 4, 1]);
    assert!(heights.iter().map(|h| *h as u32).sum::<u32>() <= 8);
    let flex = flex_heights(&vec![1, 2, 1], 8);
    assert_eq!(flex, vec![2, 4, 2]);
}

#[test]
fn fit_line_pads_and_cuts() {
    assert_eq!(fit_line("abc", 5), "abc  ");
    assert_eq!(fit_line("abcdef", 4), "abc…");
    assert_eq!(fit_line("你好", 4), "你…");
    assert_eq!(fit_line("", 0), "");
}
