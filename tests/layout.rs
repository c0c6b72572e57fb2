use image_viewer::layout::{calculate_display_size, display_rect, DisplayRect};

#[test]
fn wide_image_fills_width() {
    assert_eq!(calculate_display_size(800, 600, 400, 200), Some((800, 400)));
    assert_eq!(
        display_rect(800, 600, 400, 200),
        Some(DisplayRect { x: 0, y: 100, width: 800, height: 400 })
    );
}

#[test]
fn tall_image_fills_height() {
    assert_eq!(calculate_display_size(800, 600, 200, 400), Some((300, 600)));
    assert_eq!(
        display_rect(800, 600, 200, 400),
        Some(DisplayRect { x: 250, y: 0, width: 300, height: 600 })
    );
}

#[test]
fn equal_aspect_ratio_fills_area_exactly() {
    assert_eq!(calculate_display_size(800, 600, 400, 300), Some((800, 600)));
    assert_eq!(
        display_rect(800, 600, 1600, 1200),
        Some(DisplayRect { x: 0, y: 0, width: 800, height: 600 })
    );
}

#[test]
fn zero_heights_give_no_size() {
    assert_eq!(calculate_display_size(800, 0, 400, 200), None);
    assert_eq!(calculate_display_size(800, 600, 400, 0), None);
    assert_eq!(display_rect(800, 600, 400, 0), None);
}

#[test]
fn largest_sizes_do_not_overflow() {
    let m = u32::MAX;
    assert_eq!(calculate_display_size(m, m, m, 1), Some((m, 1)));
    assert_eq!(calculate_display_size(m, m, 1, m), Some((1, m)));
}
