use ascii_render::buffer::PixelBuffer;
use ascii_render::luminance::grayify_image;

fn brightness_of(red: u8, green: u8, blue: u8, alpha: u8) -> u8 {
    let picture = PixelBuffer::from_raw(1, 1, vec![red, green, blue, alpha]).expect("one pixel");
    grayify_image(&picture).get(0, 0)
}

#[test]
fn brightness_weighs_green_most_and_blue_least() {
    assert_eq!(brightness_of(255, 0, 0, 255), 54);
    assert_eq!(brightness_of(0, 255, 0, 255), 182);
    assert_eq!(brightness_of(0, 0, 255, 255), 18);
    assert_eq!(brightness_of(10, 200, 30, 255), 147);
}

#[test]
fn brightness_of_gray_is_its_level() {
    for level in 0..=255u8 {
        assert_eq!(brightness_of(level, level, level, 255), level);
    }
}

#[test]
fn brightness_does_not_look_at_alpha() {
    assert_eq!(brightness_of(90, 60, 30, 0), brightness_of(90, 60, 30, 255));
    assert_eq!(brightness_of(90, 60, 30, 0), 64);
}

#[test]
fn brightness_map_has_the_size_of_the_picture() {
    let samples = vec![
        255, 255, 255, 255, 0, 0, 0, 255, 255, 0, 0, 255, 0, 255, 0, 255, 0, 0, 255, 255, 128,
        128, 128, 0,
    ];
    let picture = PixelBuffer::from_raw(3, 2, samples).expect("six pixels");
    let map = grayify_image(&picture);
    assert_eq!(map.width(), 3);
    assert_eq!(map.height(), 2);
    assert_eq!(map.into_raw(), vec![255, 0, 54, 182, 18, 128]);
}

#[test]
fn brightness_follows_the_weights_across_the_colours() {
    let mut samples = Vec::new();
    let mut expected = Vec::new();
    for red in (0..=255u32).step_by(17) {
        for green in (0..=255u32).step_by(17) {
            for blue in (0..=255u32).step_by(17) {
                samples.extend_from_slice(&[red as u8, green as u8, blue as u8, (red ^ blue) as u8]);
                expected.push(((2126 * red + 7152 * green + 722 * blue) / 10000) as u8);
            }
        }
    }
    let picture = PixelBuffer::from_raw(64, 64, samples).expect("4096 pixels");
    assert_eq!(grayify_image(&picture).into_raw(), expected);
}
