use ascii_render::animation::{
    active_palette, decode, expand_sample, reconstruct_frame, AnimationFrame, FrameReader,
    IndexedFrame,
};
use ascii_render::buffer::Pixel;
use ascii_render::error::RenderError;

const FOUR_COLOURS: [u8; 12] = [0, 0, 0, 255, 0, 0, 0, 255, 0, 0, 0, 255];

fn stored(width: u16, height: u16, indices: Vec<u8>) -> IndexedFrame {
    IndexedFrame { width, height, delay: 0, transparent: None, palette: None, indices }
}

fn animation_of(delays: &[u16]) -> Vec<u8> {
    let mut bytes = Vec::new();
    {
        let mut encoder = gif::Encoder::new(&mut bytes, 2, 2, &FOUR_COLOURS).expect("a header");
        for (number, delay) in delays.iter().enumerate() {
            let index = (number % 4) as u8;
            let mut frame = gif::Frame::from_indexed_pixels(2, 2, vec![index, 1, 2, 3], None);
            frame.delay = *delay;
            encoder.write_frame(&frame).expect("a frame");
        }
    }
    bytes
}

fn png_of(width: u32, height: u32, pixel: [u8; 4]) -> Vec<u8> {
    let picture = image::RgbaImage::from_pixel(width, height, image::Rgba(pixel));
    let mut bytes = std::io::Cursor::new(Vec::new());
    picture.write_to(&mut bytes, image::ImageFormat::Png).expect("a picture that can be encoded");
    bytes.into_inner()
}

fn contents(frames: &[AnimationFrame]) -> Vec<(u32, u32, Vec<u8>, u16)> {
    let mut listed = Vec::new();
    for frame in frames {
        listed.push((
            frame.buffer.width(),
            frame.buffer.height(),
            frame.buffer.as_raw().clone(),
            frame.delay,
        ));
    }
    listed
}

#[test]
fn frame_palette_goes_before_the_shared_one() {
    let shared = vec![1, 2, 3];
    let own = Some(vec![4, 5, 6]);
    assert_eq!(active_palette(&own, &shared), &vec![4, 5, 6]);
    assert_eq!(active_palette(&None, &shared), &vec![1, 2, 3]);
    let empty_own = Some(Vec::new());
    assert_eq!(active_palette(&empty_own, &shared), &Vec::<u8>::new());
}

#[test]
fn covered_index_takes_the_colour_of_the_palette() {
    let palette = vec![10, 20, 30, 40, 50, 60];
    assert_eq!(
        expand_sample(&palette, None, 0),
        Pixel { red: 10, green: 20, blue: 30, alpha: 255 }
    );
    assert_eq!(
        expand_sample(&palette, None, 1),
        Pixel { red: 40, green: 50, blue: 60, alpha: 255 }
    );
    assert_eq!(
        expand_sample(&palette, Some(0), 1),
        Pixel { red: 40, green: 50, blue: 60, alpha: 255 }
    );
}

#[test]
fn transparent_index_gives_alpha_zero_and_keeps_the_colour() {
    let palette = vec![10, 20, 30, 40, 50, 60];
    assert_eq!(
        expand_sample(&palette, Some(1), 1),
        Pixel { red: 40, green: 50, blue: 60, alpha: 0 }
    );
    assert_eq!(
        expand_sample(&palette, Some(0), 0),
        Pixel { red: 10, green: 20, blue: 30, alpha: 0 }
    );
}

#[test]
fn index_beyond_the_palette_gives_opaque_black() {
    let black = Pixel { red: 0, green: 0, blue: 0, alpha: 255 };
    let palette = vec![10, 20, 30, 40, 50, 60];
    assert_eq!(expand_sample(&palette, None, 2), black);
    assert_eq!(expand_sample(&palette, None, 255), black);
    assert_eq!(expand_sample(&palette, Some(5), 5), black);
    assert_eq!(expand_sample(&Vec::new(), None, 0), black);
    assert_eq!(expand_sample(&Vec::new(), Some(0), 0), black);
}

#[test]
fn palette_entry_that_is_cut_short_counts_as_beyond() {
    let black = Pixel { red: 0, green: 0, blue: 0, alpha: 255 };
    assert_eq!(expand_sample(&vec![10, 20, 30, 40, 50], None, 1), black);
    assert_eq!(expand_sample(&vec![10, 20], None, 0), black);
    assert_eq!(
        expand_sample(&vec![10, 20, 30, 40, 50], None, 0),
        Pixel { red: 10, green: 20, blue: 30, alpha: 255 }
    );
}

#[test]
fn full_palette_covers_every_index() {
    let mut palette = Vec::new();
    for entry in 0..=255u8 {
        palette.extend_from_slice(&[entry, entry, entry]);
    }
    assert_eq!(
        expand_sample(&palette, Some(255), 255),
        Pixel { red: 255, green: 255, blue: 255, alpha: 0 }
    );
    assert_eq!(
        expand_sample(&palette, Some(255), 254),
        Pixel { red: 254, green: 254, blue: 254, alpha: 255 }
    );
}

#[test]
fn stored_frame_is_resolved_pixel_by_pixel() {
    let frame = IndexedFrame {
        width: 2,
        height: 2,
        delay: 7,
        transparent: Some(1),
        palette: None,
        indices: vec![0, 1, 2, 9],
    };
    let shared = vec![10, 20, 30, 40, 50, 60, 70, 80, 90];
    let resolved = reconstruct_frame(&frame, &shared).expect("four indices for four pixels");
    assert_eq!(resolved.delay, 7);
    assert_eq!(resolved.buffer.width(), 2);
    assert_eq!(resolved.buffer.height(), 2);
    assert_eq!(
        resolved.buffer.into_raw(),
        vec![10, 20, 30, 255, 40, 50, 60, 0, 70, 80, 90, 255, 0, 0, 0, 255]
    );
}

#[test]
fn stored_frame_uses_its_own_palette_if_it_has_one() {
    let frame = IndexedFrame {
        width: 2,
        height: 1,
        delay: 0,
        transparent: None,
        palette: Some(vec![1, 1, 1]),
        indices: vec![0, 1],
    };
    let shared = vec![10, 20, 30, 40, 50, 60];
    let resolved = reconstruct_frame(&frame, &shared).expect("two indices for two pixels");
    assert_eq!(resolved.buffer.into_raw(), vec![1, 1, 1, 255, 0, 0, 0, 255]);
}

#[test]
fn stored_frame_with_the_wrong_number_of_indices_is_malformed() {
    let shared = vec![10, 20, 30];
    let short = reconstruct_frame(&stored(2, 2, vec![0, 0, 0]), &shared);
    assert!(matches!(short, Err(RenderError::MalformedFrame)));
    let long = reconstruct_frame(&stored(2, 2, vec![0, 0, 0, 0, 0]), &shared);
    assert!(matches!(long, Err(RenderError::MalformedFrame)));
    let none = reconstruct_frame(&stored(1, 1, Vec::new()), &shared);
    assert!(matches!(none, Err(RenderError::MalformedFrame)));
}

#[test]
fn stored_frame_without_pixels_resolves_to_an_empty_picture() {
    let resolved = reconstruct_frame(&stored(0, 3, Vec::new()), &Vec::new()).expect("no pixels");
    assert_eq!(resolved.buffer.width(), 0);
    assert_eq!(resolved.buffer.height(), 3);
    assert_eq!(resolved.buffer.pixel_count(), 0);
}

#[test]
fn largest_stored_frame_size_is_handled() {
    let outcome = reconstruct_frame(&stored(u16::MAX, u16::MAX, vec![0]), &Vec::new());
    assert!(matches!(outcome, Err(RenderError::MalformedFrame)));
}

#[test]
fn empty_input_is_refused() {
    assert!(matches!(decode(&[]), Err(RenderError::EmptyInput)));
}

#[test]
fn undecodable_bytes_are_no_animation() {
    assert!(matches!(decode(b"plain text"), Err(RenderError::UnsupportedFormat)));
    assert!(matches!(decode(b"GIF89a"), Err(RenderError::UnsupportedFormat)));
    assert!(matches!(decode(b"GIF87a\x01"), Err(RenderError::UnsupportedFormat)));
}

#[test]
fn animation_is_decoded_in_stored_order_with_its_delays() {
    let frames = decode(&animation_of(&[5, 10, 0])).expect("three frames");
    assert_eq!(
        contents(&frames),
        vec![
            (2, 2, vec![0, 0, 0, 255, 255, 0, 0, 255, 0, 255, 0, 255, 0, 0, 255, 255], 5),
            (2, 2, vec![255, 0, 0, 255, 255, 0, 0, 255, 0, 255, 0, 255, 0, 0, 255, 255], 10),
            (2, 2, vec![0, 255, 0, 255, 255, 0, 0, 255, 0, 255, 0, 255, 0, 0, 255, 255], 0),
        ]
    );
}

#[test]
fn decoding_twice_gives_the_same_frames() {
    let bytes = animation_of(&[3, 1, 4, 1, 5, 9, 2, 6]);
    let first = decode(&bytes).expect("eight frames");
    let second = decode(&bytes).expect("eight frames");
    assert_eq!(first.len(), 8);
    assert_eq!(first, second);
    assert_eq!(contents(&first), contents(&second));
    let still = png_of(3, 3, [9, 8, 7, 6]);
    assert_eq!(
        contents(&decode(&still).expect("one frame")),
        contents(&decode(&still).expect("one frame"))
    );
}

#[test]
fn animation_frame_may_bring_its_own_palette_and_a_transparent_index() {
    let mut bytes = Vec::new();
    {
        let mut encoder = gif::Encoder::new(&mut bytes, 4, 4, &FOUR_COLOURS).expect("a header");
        let whole = gif::Frame::from_indexed_pixels(4, 4, vec![3; 16], None);
        encoder.write_frame(&whole).expect("a frame");
        let mut patch = gif::Frame::from_palette_pixels(
            2,
            1,
            vec![0, 1],
            vec![9, 9, 9, 7, 7, 7],
            Some(1),
        );
        patch.left = 1;
        patch.top = 2;
        patch.delay = 25;
        encoder.write_frame(&patch).expect("a frame");
    }
    let frames = decode(&bytes).expect("two frames");
    assert_eq!(frames.len(), 2);
    assert_eq!(frames[0].buffer.width(), 4);
    assert_eq!(frames[0].buffer.height(), 4);
    assert_eq!(frames[0].buffer.pixel(15), Pixel { red: 0, green: 0, blue: 255, alpha: 255 });
    assert_eq!(
        contents(&frames[1..]),
        vec![(2, 1, vec![9, 9, 9, 255, 7, 7, 7, 0], 25)]
    );
}

#[test]
fn animation_without_frames_is_not_opened() {
    assert!(matches!(decode(&animation_of(&[])), Err(RenderError::UnsupportedFormat)));
}

#[test]
fn animation_that_breaks_off_is_malformed() {
    let mut bytes = animation_of(&[1, 2, 3]);
    bytes.truncate(bytes.len() - 12);
    assert!(matches!(decode(&bytes), Err(RenderError::MalformedFrame)));
}

#[test]
fn still_picture_decodes_to_one_frame_without_delay() {
    let frames = decode(&png_of(2, 1, [1, 2, 3, 4])).expect("one frame");
    assert_eq!(contents(&frames), vec![(2, 1, vec![1, 2, 3, 4, 1, 2, 3, 4], 0)]);
}

#[test]
fn reader_gives_the_frames_one_by_one_and_then_the_end() {
    let bytes = animation_of(&[5, 10, 0]);
    let mut reader = FrameReader::open(&bytes).expect("an animation");
    let all = decode(&bytes).expect("three frames");
    for expected in all {
        assert_eq!(reader.next_frame(), Ok(Some(expected)));
    }
    assert_eq!(reader.next_frame(), Ok(None));
    assert_eq!(reader.next_frame(), Ok(None));
}

#[test]
fn reader_gives_what_comes_before_a_break_and_then_fails() {
    let whole = animation_of(&[1, 2, 3]);
    let mut cut = whole.clone();
    cut.truncate(cut.len() - 12);
    let expected = decode(&whole).expect("three frames");
    let mut reader = FrameReader::open(&cut).expect("an animation that opens");
    assert_eq!(reader.next_frame().as_ref(), Ok(&Some(AnimationFrame {
        buffer: ascii_render::buffer::PixelBuffer::from_raw(2, 2, expected[0].buffer.as_raw().clone())
            .expect("four pixels"),
        delay: 1,
    })));
    assert_eq!(reader.next_frame().map(|frame| frame.map(|found| found.delay)), Ok(Some(2)));
    assert_eq!(reader.next_frame(), Err(RenderError::MalformedFrame));
    assert_eq!(reader.next_frame(), Err(RenderError::MalformedFrame));
}

#[test]
fn reader_refuses_what_decoding_refuses() {
    assert!(matches!(FrameReader::open(&[]), Err(RenderError::EmptyInput)));
    assert!(matches!(FrameReader::open(b"plain text"), Err(RenderError::UnsupportedFormat)));
    assert!(matches!(FrameReader::open(b"GIF89a"), Err(RenderError::UnsupportedFormat)));
}

#[test]
fn reader_of_a_still_picture_gives_one_frame() {
    let bytes = png_of(1, 2, [5, 6, 7, 8]);
    let mut reader = FrameReader::open(&bytes).expect("a picture");
    let frame = reader.next_frame().expect("no failure").expect("one frame");
    assert_eq!(frame.delay, 0);
    assert_eq!(frame.buffer.width(), 1);
    assert_eq!(frame.buffer.height(), 2);
    assert_eq!(frame.buffer.into_raw(), vec![5, 6, 7, 8, 5, 6, 7, 8]);
    assert_eq!(reader.next_frame(), Ok(None));
}

#[test]
fn reader_of_a_list_gives_the_list_first_to_last() {
    let mut list = Vec::new();
    for delay in [4u16, 2, 7] {
        let buffer = ascii_render::buffer::PixelBuffer::from_raw(1, 1, vec![delay as u8, 0, 0, 255])
            .expect("one pixel");
        list.push(AnimationFrame { buffer, delay });
    }
    let mut reader = FrameReader::from_frames(list);
    for delay in [4u16, 2, 7] {
        let frame = reader.next_frame().expect("no failure").expect("a frame");
        assert_eq!(frame.delay, delay);
        assert_eq!(frame.buffer.into_raw(), vec![delay as u8, 0, 0, 255]);
    }
    assert_eq!(reader.next_frame(), Ok(None));
    let mut nothing = FrameReader::from_frames(Vec::new());
    assert_eq!(nothing.next_frame(), Ok(None));
}

#[test]
fn both_signatures_are_read_as_animations() {
    let newer = animation_of(&[1, 2, 3]);
    assert_eq!(&newer[..6], b"GIF89a");
    assert_eq!(decode(&newer).expect("three frames").len(), 3);
    let mut older = newer.clone();
    older[4] = b'7';
    assert_eq!(decode(&older).expect("three frames").len(), 3);
}

#[test]
fn other_signatures_are_not_read_as_animations() {
    let mut other = animation_of(&[1, 2, 3]);
    other[4] = b'8';
    assert!(matches!(decode(&other), Err(RenderError::UnsupportedFormat)));
    let mut lower = animation_of(&[1, 2, 3]);
    lower[0] = b'g';
    assert!(matches!(decode(&lower), Err(RenderError::UnsupportedFormat)));
    assert!(matches!(decode(b"GIF89"), Err(RenderError::UnsupportedFormat)));
}
