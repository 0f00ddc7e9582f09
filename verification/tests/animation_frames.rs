use gifterm::animation::{build_animation, decode_gif, frame_duration_ms, scale_target_width, LoadError, RawFrame};
use image::codecs::gif::GifEncoder;
use image::{Delay, Frame, Rgba, RgbaImage};

fn gif_bytes(width: u32, height: u32, delays_ms: &[u32]) -> Vec<u8> {
    let mut out = Vec::new();
    {
        let mut enc = GifEncoder::new(&mut out);
        let frames: Vec<Frame> = delays_ms
            .iter()
            .enumerate()
            .map(|(i, d)| {
                let img = RgbaImage::from_pixel(width, height, Rgba([(i * 60) as u8, 0, 0, 255]));
                Frame::from_parts(img, 0, 0, Delay::from_numer_denom_ms(*d, 1))
            })
            .collect();
        enc.encode_frames(frames).unwrap();
    }
    out
}

#[test]
fn decodes_frames_and_delays() {
    let data = gif_bytes(4, 2, &[100, 10, 250]);
    let frames = decode_gif(&data).unwrap();
    assert_eq!(frames.len(), 3);
    for f in &frames {
        assert_eq!((f.width, f.height), (frames[0].width, frames[0].height));
        assert_eq!((f.width, f.height), (4, 2));
        assert_eq!(f.rgba.len(), 4 * 2 * 4);
        assert!(f.delay_denom > 0);
    }
    let ms: Vec<u32> = frames.iter().map(|f| frame_duration_ms(f.delay_numer, f.delay_denom)).collect();
    assert_eq!(ms, vec![100, 20, 250]);
}

#[test]
fn single_frame_is_refused() {
    let data = gif_bytes(2, 2, &[100]);
    match decode_gif(&data) {
        Err(e @ LoadError::TooFewFrames) => assert_eq!(e.message(), "Need at least 2 frames for animation"),
        other => panic!("unexpected: {:?}", other.map(|f| f.len())),
    }
}

#[test]
fn garbage_is_a_decode_error() {
    match decode_gif(b"not a gif at all") {
        Err(LoadError::Decode(msg)) => assert!(!msg.is_empty()),
        other => panic!("unexpected: {:?}", other.map(|f| f.len())),
    }
}

#[test]
fn durations_have_a_floor() {
    assert_eq!(frame_duration_ms(0, 1), 20);
    assert_eq!(frame_duration_ms(19, 1), 20);
    assert_eq!(frame_duration_ms(20, 1), 20);
    assert_eq!(frame_duration_ms(100, 1), 100);
    assert_eq!(frame_duration_ms(45, 2), 22);
    assert_eq!(frame_duration_ms(35, 2), 20);
}

#[test]
fn scaling_only_down() {
    assert_eq!(scale_target_width(640, Some(400)), Some(400));
    assert_eq!(scale_target_width(400, Some(400)), None);
    assert_eq!(scale_target_width(300, Some(400)), None);
    assert_eq!(scale_target_width(640, None), None);
}

fn frame(w: u32, h: u32, numer: u32) -> RawFrame {
    RawFrame { width: w, height: h, rgba: vec![9u8; (w * h * 4) as usize], delay_numer: numer, delay_denom: 1 }
}

#[test]
fn build_without_resizing_keeps_pixels() {
    let frames = vec![frame(2, 2, 100), frame(2, 2, 5)];
    let a = build_animation(&frames, 2, 2, "lofi.gif".to_string());
    assert_eq!((a.meta.width, a.meta.height, a.meta.n_frames), (2, 2, 2));
    assert_eq!(a.meta.durations, vec![100, 20]);
    assert_eq!(a.meta.source, "lofi.gif");
    assert_eq!(a.frames[0], frames[0].rgba);
    assert_eq!(a.frames[1], frames[1].rgba);
}

#[test]
fn build_with_resizing_changes_size() {
    let frames = vec![frame(8, 4, 40), frame(8, 4, 60)];
    let a = build_animation(&frames, 4, 2, String::new());
    assert_eq!((a.meta.width, a.meta.height), (4, 2));
    assert_eq!(a.frames.len(), 2);
    for f in &a.frames {
        assert_eq!(f.len(), 4 * 2 * 4);
        assert!(f.iter().all(|b| *b == 9));
    }
    assert_eq!(a.meta.durations, vec![40, 60]);
}

#[test]
fn frames_placed_on_the_logical_screen() {
    let mut out = Vec::new();
    {
        let mut enc = GifEncoder::new(&mut out);
        let big = Frame::from_parts(RgbaImage::from_pixel(6, 4, Rgba([1, 2, 3, 255])), 0, 0, Delay::from_numer_denom_ms(50, 1));
        let small = Frame::from_parts(RgbaImage::from_pixel(2, 2, Rgba([9, 9, 9, 255])), 1, 1, Delay::from_numer_denom_ms(50, 1));
        enc.encode_frames(vec![big, small]).unwrap();
    }
    let frames = decode_gif(&out).unwrap();
    assert_eq!(frames.len(), 2);
    assert_eq!((frames[1].width, frames[1].height), (frames[0].width, frames[0].height));
}

#[test]
fn resized_frames_have_the_output_size() {
    let frames = vec![frame(9, 5, 40), frame(9, 5, 60)];
    let a = build_animation(&frames, 3, 1, String::new());
    for f in &a.frames {
        assert_eq!(f.len(), 3 * 1 * 4);
    }
}
