use ascii_render::buffer::PixelBuffer;
use ascii_render::tone::{adjust_contrast, stretch_channel, ContrastFactor, MID_GRAY};

#[test]
fn neutral_factor_changes_no_channel_value() {
    let neutral = ContrastFactor::neutral();
    let same = ContrastFactor::new(7, 7).expect("positive parts");
    for sample in 0..=255u8 {
        assert_eq!(stretch_channel(sample, &neutral), sample);
        assert_eq!(stretch_channel(sample, &same), sample);
    }
}

#[test]
fn neutral_factor_gives_the_picture_back() {
    let samples = vec![0, 1, 2, 3, 127, 128, 129, 4, 253, 254, 255, 0];
    let picture = PixelBuffer::from_raw(3, 1, samples.clone()).expect("three pixels");
    let adjusted = adjust_contrast(&picture, &ContrastFactor::neutral());
    assert_eq!(adjusted.width(), 3);
    assert_eq!(adjusted.height(), 1);
    assert_eq!(adjusted.into_raw(), samples);
}

#[test]
fn standard_factor_stretches_away_from_mid_gray() {
    let factor = ContrastFactor::standard();
    assert_eq!(factor.numerator(), 9);
    assert_eq!(factor.denominator(), 5);
    assert_eq!(stretch_channel(128, &factor), 128);
    assert_eq!(stretch_channel(129, &factor), 129);
    assert_eq!(stretch_channel(127, &factor), 126);
    assert_eq!(stretch_channel(150, &factor), 167);
    assert_eq!(stretch_channel(100, &factor), 77);
    assert_eq!(stretch_channel(133, &factor), 137);
    assert_eq!(stretch_channel(123, &factor), 119);
}

#[test]
fn stretched_values_stop_at_the_ends_of_the_range() {
    let factor = ContrastFactor::standard();
    assert_eq!(stretch_channel(0, &factor), 0);
    assert_eq!(stretch_channel(57, &factor), 0);
    assert_eq!(stretch_channel(58, &factor), 2);
    assert_eq!(stretch_channel(198, &factor), 254);
    assert_eq!(stretch_channel(199, &factor), 255);
    assert_eq!(stretch_channel(255, &factor), 255);
    let strong = ContrastFactor::new(u32::MAX, 1).expect("positive parts");
    assert_eq!(stretch_channel(127, &strong), 0);
    assert_eq!(stretch_channel(128, &strong), 128);
    assert_eq!(stretch_channel(129, &strong), 255);
}

#[test]
fn weak_factor_pulls_towards_mid_gray_rounding_down() {
    let half = ContrastFactor::new(1, 2).expect("positive parts");
    assert_eq!(stretch_channel(0, &half), 64);
    assert_eq!(stretch_channel(255, &half), 191);
    assert_eq!(stretch_channel(129, &half), 128);
    assert_eq!(stretch_channel(127, &half), 127);
    assert_eq!(stretch_channel(125, &half), 126);
    let faint = ContrastFactor::new(1, u32::MAX).expect("positive parts");
    assert_eq!(stretch_channel(255, &faint), 128);
    assert_eq!(stretch_channel(0, &faint), 127);
}

#[test]
fn mid_gray_is_one_hundred_and_twenty_eight() {
    assert_eq!(MID_GRAY, 128);
}

#[test]
fn factor_needs_two_positive_parts() {
    assert!(ContrastFactor::new(0, 5).is_none());
    assert!(ContrastFactor::new(9, 0).is_none());
    assert!(ContrastFactor::new(0, 0).is_none());
    let factor = ContrastFactor::new(9, 5).expect("positive parts");
    assert_eq!((factor.numerator(), factor.denominator()), (9, 5));
}

#[test]
fn adjustment_leaves_alpha_and_size_alone() {
    let samples = vec![100, 150, 200, 7, 0, 128, 255, 99];
    let picture = PixelBuffer::from_raw(1, 2, samples).expect("two pixels");
    let adjusted = adjust_contrast(&picture, &ContrastFactor::standard());
    assert_eq!(adjusted.width(), 1);
    assert_eq!(adjusted.height(), 2);
    assert_eq!(adjusted.into_raw(), vec![77, 167, 255, 7, 0, 128, 255, 99]);
}

#[test]
fn adjustment_of_an_empty_picture_is_empty() {
    let picture = PixelBuffer::from_raw(0, 0, Vec::new()).expect("no pixels");
    let adjusted = adjust_contrast(&picture, &ContrastFactor::standard());
    assert_eq!(adjusted.pixel_count(), 0);
}
