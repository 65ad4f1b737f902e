use wl_shortcuts_overlay::blur::{box_blur, box_blur_multi_pass};

#[test]
fn test_box_blur_empty() {
    let mut data: Vec<u8> = vec![];
    box_blur(&mut data, 0, 0, 5);
    // Should not panic
}

#[test]
fn test_box_blur_zero_radius() {
    let mut data = vec![255u8; 16]; // 2x2 image
    let before = data.clone();
    box_blur(&mut data, 2, 2, 0);
    assert_eq!(data, before); // Should be unchanged
}

#[test]
fn test_box_blur_single_pixel() {
    let mut data = vec![255, 128, 64, 255]; // 1x1 image
    let before = data.clone();
    box_blur(&mut data, 1, 1, 5);
    assert_eq!(data, before); // Single pixel can't be blurred
}

#[test]
fn test_box_blur_small_image() {
    // 2x2 image with different colors
    let mut data = vec![
        255, 0, 0, 255, // Red
        0, 255, 0, 255, // Green
        0, 0, 255, 255, // Blue
        255, 255, 0, 255, // Yellow
    ];

    box_blur(&mut data, 2, 2, 1);

    // After blur, all pixels should be averaged
    // Each pixel should be influenced by its neighbors
    for i in (0..16).step_by(4) {
        let r = data[i];
        let g = data[i + 1];
        let b = data[i + 2];

        // Colors should be mixed, not pure anymore
        assert!(r > 0 && r < 255);
        assert!(g > 0 && g < 255);
        assert!(b > 0 && b < 200); // Blue might be lower
    }
}

#[test]
fn blur_small_image_exact_values() {
    let mut data = vec![
        255, 0, 0, 255, //
        0, 255, 0, 255, //
        0, 0, 255, 255, //
        255, 255, 0, 255, //
    ];
    box_blur(&mut data, 2, 2, 1);
    // Rows average to (127, 127, 0) and (127, 127, 127); columns then to (127, 127, 63).
    for i in (0..16).step_by(4) {
        assert_eq!(&data[i..i + 4], &[127, 127, 63, 255]);
    }
}

#[test]
fn blur_uniform_image_is_unchanged() {
    let mut data: Vec<u8> = [10u8, 20, 30, 40].repeat(12); // 4x3 image
    let before = data.clone();
    box_blur(&mut data, 4, 3, 2);
    assert_eq!(data, before);
    box_blur_multi_pass(&mut data, 4, 3, 1, 3);
    assert_eq!(data, before);
}

#[test]
fn blur_keeps_bytes_after_the_image() {
    // A 2x1 image followed by two extra bytes.
    let mut data = vec![0, 0, 0, 0, 200, 100, 50, 250, 7, 9];
    box_blur(&mut data, 2, 1, 1);
    assert_eq!(data, vec![100, 50, 25, 125, 100, 50, 25, 125, 7, 9]);
}

#[test]
fn blur_window_is_cut_at_the_edges() {
    // A 3x1 image of grey levels 0, 90, 180 (alpha 255) with radius 1.
    let mut data = vec![0, 0, 0, 255, 90, 90, 90, 255, 180, 180, 180, 255];
    box_blur(&mut data, 3, 1, 1);
    assert_eq!(data, vec![45, 45, 45, 255, 90, 90, 90, 255, 135, 135, 135, 255]);
}

#[test]
fn blur_vertical_pass_uses_columns() {
    // A 1x3 image: only the vertical pass changes it.
    let mut data = vec![0, 0, 0, 0, 30, 30, 30, 30, 60, 60, 60, 60];
    box_blur(&mut data, 1, 3, 5);
    assert_eq!(data, vec![30; 12]);
}

#[test]
fn multi_pass_zero_passes_changes_nothing() {
    let mut data = vec![1, 2, 3, 4, 5, 6, 7, 8];
    box_blur_multi_pass(&mut data, 2, 1, 3, 0);
    assert_eq!(data, vec![1, 2, 3, 4, 5, 6, 7, 8]);
}

#[test]
fn multi_pass_repeats_the_blur() {
    let mut once_twice = vec![0, 0, 0, 0, 0, 0, 0, 0, 240, 240, 240, 240];
    box_blur(&mut once_twice, 3, 1, 1);
    box_blur(&mut once_twice, 3, 1, 1);
    let mut multi = vec![0, 0, 0, 0, 0, 0, 0, 0, 240, 240, 240, 240];
    box_blur_multi_pass(&mut multi, 3, 1, 1, 2);
    assert_eq!(once_twice, multi);
}

#[test]
fn blur_nothing_to_do_on_a_short_buffer() {
    // A zero radius, a zero dimension or zero passes leave the data as it is,
    // even when it is shorter than the image the sizes describe.
    let mut data = vec![9, 8, 7];
    box_blur(&mut data, 10, 10, 0);
    assert_eq!(data, vec![9, 8, 7]);
    box_blur(&mut data, 0, 10, 4);
    assert_eq!(data, vec![9, 8, 7]);
    box_blur(&mut data, 10, 0, 4);
    assert_eq!(data, vec![9, 8, 7]);
    box_blur_multi_pass(&mut data, 10, 10, 4, 0);
    assert_eq!(data, vec![9, 8, 7]);
    box_blur_multi_pass(&mut data, 10, 10, 0, 3);
    assert_eq!(data, vec![9, 8, 7]);
    let mut empty: Vec<u8> = Vec::new();
    box_blur(&mut empty, 0, 0, 2);
    assert!(empty.is_empty());
}
