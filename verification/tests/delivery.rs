use ascii_render::animation::{AnimationFrame, FrameReader};
use ascii_render::buffer::PixelBuffer;
use ascii_render::delivery::{
    convert_gif, delay_millis, render_all, Delivery, DeliveryAction, DeliveryEvent,
    CHANNEL_CAPACITY, MILLIS_PER_UNIT,
};
use ascii_render::error::RenderError;
use ascii_render::glyph::CharacterRamp;
use ascii_render::pipeline::{frame_to_ascii, RenderConfig};
use ascii_render::resample::AspectCorrection;
use ascii_render::tone::ContrastFactor;

const FOUR_COLOURS: [u8; 12] = [0, 0, 0, 255, 255, 255, 128, 128, 128, 60, 60, 60];

fn animation_of(delays: &[u16]) -> Vec<u8> {
    let mut bytes = Vec::new();
    {
        let mut encoder = gif::Encoder::new(&mut bytes, 2, 2, &FOUR_COLOURS).expect("a header");
        for (number, delay) in delays.iter().enumerate() {
            let index = (number % 4) as u8;
            let mut frame = gif::Frame::from_indexed_pixels(2, 2, vec![index; 4], None);
            frame.delay = *delay;
            encoder.write_frame(&frame).expect("a frame");
        }
    }
    bytes
}

fn png_of(width: u32, height: u32, pixel: [u8; 4]) -> Vec<u8> {
    let picture = image::RgbaImage::from_pixel(width, height, image::Rgba(pixel));
    let mut bytes = std::io::Cursor::new(Vec::new());
    picture.write_to(&mut bytes, image::ImageFormat::Png).expect("a picture that can be encoded");
    bytes.into_inner()
}

fn plain() -> RenderConfig {
    RenderConfig {
        ramp: CharacterRamp::compact(),
        contrast: ContrastFactor::neutral(),
        aspect: AspectCorrection::square(),
    }
}

fn frame_of(width: u32, height: u32, level: u8, delay: u16) -> AnimationFrame {
    let mut samples = Vec::new();
    for _ in 0..(width * height) {
        samples.extend_from_slice(&[level, level, level, 255]);
    }
    let buffer = PixelBuffer::from_raw(width, height, samples).expect("matching samples");
    AnimationFrame { buffer, delay }
}

fn deliver(text: &str) -> DeliveryAction {
    DeliveryAction::Deliver(String::from(text))
}

fn listed<'a>(frames: Vec<AnimationFrame>, width: u32, config: RenderConfig) -> Delivery<'a> {
    Delivery::new(FrameReader::from_frames(frames), width, config)
}

#[test]
fn delay_unit_is_ten_milliseconds() {
    assert_eq!(MILLIS_PER_UNIT, 10);
    assert_eq!(delay_millis(0), 0);
    assert_eq!(delay_millis(5), 50);
    assert_eq!(delay_millis(10), 100);
    assert_eq!(delay_millis(u16::MAX), 655_350);
}

#[test]
fn channel_is_small_and_not_empty() {
    assert!(CHANNEL_CAPACITY >= 1);
    assert!(CHANNEL_CAPACITY <= 16);
}

#[test]
fn stream_sends_each_frame_then_waits_its_delay_then_closes() {
    let bytes = animation_of(&[5, 10, 0]);
    let reader = FrameReader::open(&bytes).expect("an animation");
    let mut stream = Delivery::new(reader, 2, plain());
    assert_eq!(stream.step(DeliveryEvent::Started), deliver("##\n##"));
    assert_eq!(stream.step(DeliveryEvent::Accepted), DeliveryAction::Wait(50));
    assert_eq!(stream.step(DeliveryEvent::Elapsed), deliver("  \n  "));
    assert_eq!(stream.step(DeliveryEvent::Accepted), DeliveryAction::Wait(100));
    assert_eq!(stream.step(DeliveryEvent::Elapsed), deliver("**\n**"));
    assert_eq!(stream.step(DeliveryEvent::Accepted), DeliveryAction::Wait(0));
    assert!(!stream.is_done());
    assert_eq!(stream.step(DeliveryEvent::Elapsed), DeliveryAction::Finish);
    assert!(stream.is_done());
}

#[test]
fn stream_sends_nothing_after_it_closed() {
    let bytes = animation_of(&[5, 10, 0]);
    let reader = FrameReader::open(&bytes).expect("an animation");
    let mut stream = Delivery::new(reader, 2, plain());
    let mut last = stream.step(DeliveryEvent::Started);
    let mut sent = 0;
    let mut waited = Vec::new();
    loop {
        last = match last {
            DeliveryAction::Deliver(_) => {
                sent += 1;
                stream.step(DeliveryEvent::Accepted)
            },
            DeliveryAction::Wait(millis) => {
                waited.push(millis);
                stream.step(DeliveryEvent::Elapsed)
            },
            other => {
                assert_eq!(other, DeliveryAction::Finish);
                break;
            },
        };
    }
    assert_eq!(sent, 3);
    assert_eq!(waited, vec![50, 100, 0]);
    for event in [
        DeliveryEvent::Started,
        DeliveryEvent::Accepted,
        DeliveryEvent::Refused,
        DeliveryEvent::Elapsed,
    ] {
        assert_eq!(stream.step(event), DeliveryAction::Stop);
        assert!(stream.is_done());
    }
}

#[test]
fn stream_stops_at_once_when_the_consumer_is_gone() {
    let frames = vec![frame_of(2, 2, 0, 5), frame_of(0, 0, 0, 5), frame_of(2, 2, 255, 5)];
    let mut stream = listed(frames, 2, plain());
    assert_eq!(stream.step(DeliveryEvent::Started), deliver("##\n##"));
    assert_eq!(stream.step(DeliveryEvent::Refused), DeliveryAction::Stop);
    assert!(stream.is_done());
    assert_eq!(stream.step(DeliveryEvent::Elapsed), DeliveryAction::Stop);
    assert_eq!(stream.step(DeliveryEvent::Started), DeliveryAction::Stop);
}

#[test]
fn stream_fails_on_a_frame_that_cannot_be_rendered() {
    let frames = vec![frame_of(2, 2, 0, 1), frame_of(0, 0, 0, 2), frame_of(2, 2, 255, 3)];
    let mut stream = listed(frames, 2, plain());
    assert_eq!(stream.step(DeliveryEvent::Started), deliver("##\n##"));
    assert_eq!(stream.step(DeliveryEvent::Accepted), DeliveryAction::Wait(10));
    assert_eq!(
        stream.step(DeliveryEvent::Elapsed),
        DeliveryAction::Fail(RenderError::MalformedFrame)
    );
    assert!(stream.is_done());
    assert_eq!(stream.step(DeliveryEvent::Elapsed), DeliveryAction::Stop);
}

#[test]
fn stream_without_frames_closes_at_once() {
    let mut stream = listed(Vec::new(), 80, RenderConfig::standard());
    assert!(!stream.is_done());
    assert_eq!(stream.step(DeliveryEvent::Started), DeliveryAction::Finish);
    assert!(stream.is_done());
    assert_eq!(stream.step(DeliveryEvent::Started), DeliveryAction::Stop);
}

#[test]
fn stream_ends_on_an_event_it_is_not_waiting_for() {
    let mut early = listed(vec![frame_of(1, 1, 0, 1)], 1, plain());
    assert_eq!(early.step(DeliveryEvent::Accepted), DeliveryAction::Stop);
    assert!(early.is_done());
    let mut hasty = listed(vec![frame_of(1, 1, 0, 1)], 1, plain());
    assert_eq!(hasty.step(DeliveryEvent::Started), deliver("#"));
    assert_eq!(hasty.step(DeliveryEvent::Elapsed), DeliveryAction::Stop);
    assert!(hasty.is_done());
    let mut twice = listed(vec![frame_of(1, 1, 0, 1)], 1, plain());
    assert_eq!(twice.step(DeliveryEvent::Started), deliver("#"));
    assert_eq!(twice.step(DeliveryEvent::Accepted), DeliveryAction::Wait(10));
    assert_eq!(twice.step(DeliveryEvent::Accepted), DeliveryAction::Stop);
    assert!(twice.is_done());
}

#[test]
fn stream_renders_each_frame_as_the_pipeline_does() {
    let config = RenderConfig::detailed();
    let picture = frame_of(9, 7, 77, 4);
    let expected = frame_to_ascii(&picture.buffer, 30, &config);
    let mut stream = listed(vec![picture], 30, RenderConfig::detailed());
    assert_eq!(stream.step(DeliveryEvent::Started), DeliveryAction::Deliver(expected));
    assert_eq!(stream.step(DeliveryEvent::Accepted), DeliveryAction::Wait(40));
    assert_eq!(stream.step(DeliveryEvent::Elapsed), DeliveryAction::Finish);
}

#[test]
fn all_frames_are_rendered_in_order() {
    let frames = vec![frame_of(2, 1, 0, 0), frame_of(1, 2, 255, 0), frame_of(1, 1, 128, 0)];
    assert_eq!(
        render_all(&frames, 2, &plain()),
        Ok(vec![String::from("##"), String::from("  \n  \n  \n  "), String::from("**\n**")])
    );
    assert_eq!(render_all(&Vec::new(), 2, &plain()), Ok(Vec::new()));
}

#[test]
fn one_frame_that_cannot_be_rendered_fails_the_whole() {
    let frames = vec![frame_of(2, 1, 0, 0), frame_of(0, 2, 255, 0), frame_of(1, 1, 128, 0)];
    assert_eq!(render_all(&frames, 2, &plain()), Err(RenderError::MalformedFrame));
}

#[test]
fn animation_is_converted_frame_by_frame() {
    let bytes = animation_of(&[5, 10, 0]);
    assert_eq!(
        convert_gif(&bytes, 2, &plain()),
        Ok(vec![String::from("##\n##"), String::from("  \n  "), String::from("**\n**")])
    );
    assert_eq!(
        convert_gif(&bytes, 3, &plain()).map(|texts| texts.len()),
        Ok(3)
    );
}

#[test]
fn still_picture_is_converted_to_one_text() {
    let bytes = png_of(2, 2, [255, 255, 255, 255]);
    assert_eq!(convert_gif(&bytes, 2, &plain()), Ok(vec![String::from("  \n  ")]));
}

#[test]
fn conversion_reports_the_errors_of_decoding() {
    let config = RenderConfig::standard();
    assert_eq!(convert_gif(&[], 200, &config), Err(RenderError::EmptyInput));
    assert_eq!(convert_gif(b"GIF89a", 200, &config), Err(RenderError::UnsupportedFormat));
    assert_eq!(convert_gif(b"no image", 200, &config), Err(RenderError::UnsupportedFormat));
    let mut cut = animation_of(&[1, 2, 3]);
    cut.truncate(cut.len() - 12);
    assert_eq!(convert_gif(&cut, 200, &config), Err(RenderError::MalformedFrame));
}

#[test]
fn conversion_fails_where_a_frame_is_too_large_to_render() {
    let bytes = animation_of(&[1]);
    assert_eq!(
        convert_gif(&bytes, 16_777_217, &RenderConfig::standard()),
        Err(RenderError::MalformedFrame)
    );
}

#[test]
fn stream_delivers_what_comes_before_a_break_in_the_container() {
    let mut bytes = animation_of(&[7, 8, 9]);
    bytes.truncate(bytes.len() - 12);
    let reader = FrameReader::open(&bytes).expect("an animation that opens");
    let mut stream = Delivery::new(reader, 2, plain());
    assert_eq!(stream.step(DeliveryEvent::Started), deliver("##\n##"));
    assert_eq!(stream.step(DeliveryEvent::Accepted), DeliveryAction::Wait(70));
    assert_eq!(stream.step(DeliveryEvent::Elapsed), deliver("  \n  "));
    assert_eq!(stream.step(DeliveryEvent::Accepted), DeliveryAction::Wait(80));
    assert_eq!(
        stream.step(DeliveryEvent::Elapsed),
        DeliveryAction::Fail(RenderError::MalformedFrame)
    );
    assert!(stream.is_done());
    assert_eq!(stream.step(DeliveryEvent::Elapsed), DeliveryAction::Stop);
}

#[test]
fn stream_of_a_still_picture_has_one_frame_and_no_pause() {
    let bytes = png_of(2, 1, [255, 255, 255, 255]);
    let reader = FrameReader::open(&bytes).expect("a picture");
    let mut stream = Delivery::new(reader, 2, plain());
    assert_eq!(stream.step(DeliveryEvent::Started), deliver("  "));
    assert_eq!(stream.step(DeliveryEvent::Accepted), DeliveryAction::Wait(0));
    assert_eq!(stream.step(DeliveryEvent::Elapsed), DeliveryAction::Finish);
}

#[test]
fn stream_at_width_zero_fails_on_its_first_frame() {
    let mut stream = listed(vec![frame_of(2, 2, 0, 1)], 0, plain());
    assert_eq!(
        stream.step(DeliveryEvent::Started),
        DeliveryAction::Fail(RenderError::MalformedFrame)
    );
    assert!(stream.is_done());
}

#[test]
fn conversion_at_width_zero_is_a_malformed_frame() {
    let bytes = animation_of(&[1]);
    assert_eq!(convert_gif(&bytes, 0, &plain()), Err(RenderError::MalformedFrame));
    assert_eq!(render_all(&vec![frame_of(1, 1, 0, 0)], 0, &plain()), Err(RenderError::MalformedFrame));
    assert_eq!(render_all(&Vec::new(), 0, &plain()), Ok(Vec::new()));
}

#[test]
fn still_conversion_of_an_animation_gives_its_first_frame() {
    let bytes = animation_of(&[5, 10, 0]);
    assert_eq!(
        ascii_render::pipeline::convert_image(&bytes, 2, &plain()),
        Ok(String::from("##\n##"))
    );
}

#[test]
fn frame_event_starts_with_the_number_of_characters() {
    assert_eq!(ascii_render::delivery::frame_event("##\n##"), "5\n##\n##");
    assert_eq!(ascii_render::delivery::frame_event(""), "0\n");
    assert_eq!(ascii_render::delivery::frame_event("0123456789"), "10\n0123456789");
    assert_eq!(ascii_render::delivery::frame_event("\u{2588}\u{2593}"), "2\n\u{2588}\u{2593}");
    let long = "x".repeat(120_034);
    assert_eq!(ascii_render::delivery::frame_event(&long), format!("120034\n{}", long));
}

#[test]
fn closing_and_failure_events_start_with_a_word() {
    assert_eq!(ascii_render::delivery::closing_event(), "end\n");
    assert_eq!(
        ascii_render::delivery::failure_event(RenderError::MalformedFrame),
        "error\na frame of the image could not be processed\n"
    );
    assert_eq!(
        ascii_render::delivery::failure_event(RenderError::EmptyInput),
        "error\nno image data was supplied\n"
    );
    assert_eq!(
        ascii_render::delivery::failure_event(RenderError::UnsupportedFormat),
        "error\nthe data is not a supported image format\n"
    );
}
