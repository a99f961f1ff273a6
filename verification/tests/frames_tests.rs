use mushy::direction::Direction;
use mushy::frames::{encode_frames, encode_rotated, rotation_angle, FrameError};

/// A GIF with the given RGBA frames, all `w` x `h`.
fn make_gif(w: u16, h: u16, frames: &[Vec<u8>]) -> Vec<u8> {
    let mut out = Vec::new();
    {
        let mut enc = gif::Encoder::new(&mut out, w, h, &[]).unwrap();
        for f in frames {
            let mut px = f.clone();
            let frame = gif::Frame::from_rgba(w, h, &mut px);
            enc.write_frame(&frame).unwrap();
        }
    }
    out
}

/// The RGBA pixels of a Base64 PNG.
fn decode_png_b64(s: &str) -> (u32, u32, Vec<u8>) {
    #[allow(deprecated)]
    let png = base64::decode(s).unwrap();
    let img = image::load_from_memory_with_format(&png, image::ImageFormat::Png).unwrap().into_rgba8();
    (img.width(), img.height(), img.into_raw())
}

const RED: [u8; 4] = [255, 0, 0, 255];
const GREEN: [u8; 4] = [0, 255, 0, 255];
const BLUE: [u8; 4] = [0, 0, 255, 255];
const WHITE: [u8; 4] = [255, 255, 255, 255];

fn square(a: [u8; 4], b: [u8; 4], c: [u8; 4], d: [u8; 4]) -> Vec<u8> {
    [a, b, c, d].concat()
}

/// Pixels of a 2 x 2 image, row by row: a b / c d, turned clockwise.
fn turned(img: &[u8], angle: u32) -> Vec<u8> {
    let p = |i: usize| img[i * 4..i * 4 + 4].to_vec();
    let order: [usize; 4] = match angle {
        0 => [0, 1, 2, 3],
        // 90 degrees clockwise: c a / d b.
        90 => [2, 0, 3, 1],
        // 180 degrees: d c / b a.
        180 => [3, 2, 1, 0],
        // 270 degrees clockwise: b d / a c.
        _ => [1, 3, 0, 2],
    };
    order.iter().flat_map(|&i| p(i)).collect()
}

#[test]
fn encoded_text_is_padded_base64() {
    let img = square(RED, GREEN, BLUE, WHITE);
    let s = encode_rotated(2, 2, &img, 0).ok().unwrap();
    assert_eq!(s.len() % 4, 0);
    assert!(s.chars().all(|c| c.is_ascii_alphanumeric() || c == '+' || c == '/' || c == '='));
    #[allow(deprecated)]
    let png = base64::decode(&s).unwrap();
    #[allow(deprecated)]
    let again = base64::encode(&png);
    assert_eq!(again, s);
    assert_eq!(&png[..8], &[0x89, b'P', b'N', b'G', 0x0d, 0x0a, 0x1a, 0x0a]);
}

#[test]
fn rotations_move_pixels() {
    let img = square(RED, GREEN, BLUE, WHITE);
    assert_eq!(turned(&img, 90), square(BLUE, RED, WHITE, GREEN));
    for angle in [0u32, 90, 180, 270] {
        let s = encode_rotated(2, 2, &img, angle).ok().unwrap();
        assert_eq!(decode_png_b64(&s), (2, 2, turned(&img, angle)), "angle {}", angle);
    }
}

#[test]
fn resize_nearest_doubles_pixels() {
    let gif = make_gif(2, 1, &[[RED, GREEN].concat()]);
    let frames = encode_frames(gif, 4, false).ok().unwrap();
    let (w, h, out) = decode_png_b64(&frames.right[0]);
    assert_eq!((w, h), (4, 4));
    for y in 0..4 {
        assert_eq!(&out[(y * 4) * 4..(y * 4 + 1) * 4], &RED);
        assert_eq!(&out[(y * 4 + 3) * 4..(y * 4 + 4) * 4], &GREEN);
    }
}

#[test]
fn encode_rotated_gives_base64_png() {
    let img = square(RED, GREEN, BLUE, WHITE);
    let s = encode_rotated(2, 2, &img, 90).ok().unwrap();
    assert_eq!(decode_png_b64(&s), (2, 2, square(BLUE, RED, WHITE, GREEN)));
    let s = encode_rotated(2, 2, &img, 0).ok().unwrap();
    assert_eq!(decode_png_b64(&s), (2, 2, img));
}

#[test]
fn encode_rotated_turns_a_wide_image() {
    // 2 wide, 1 high: a b. Turned 90 degrees clockwise: 1 wide, 2 high: a / b;
    // turned 270 degrees: b / a; turned 180 degrees: b a.
    let img = [RED, GREEN].concat();
    let s = encode_rotated(2, 1, &img, 90).ok().unwrap();
    assert_eq!(decode_png_b64(&s), (1, 2, [RED, GREEN].concat()));
    let s = encode_rotated(2, 1, &img, 270).ok().unwrap();
    assert_eq!(decode_png_b64(&s), (1, 2, [GREEN, RED].concat()));
    let s = encode_rotated(2, 1, &img, 180).ok().unwrap();
    assert_eq!(decode_png_b64(&s), (2, 1, [GREEN, RED].concat()));
    let s = encode_rotated(2, 1, &img, 0).ok().unwrap();
    assert_eq!(decode_png_b64(&s), (2, 1, img));
}

#[test]
fn angles_per_direction() {
    assert_eq!(rotation_angle(Direction::Right, false), 0);
    assert_eq!(rotation_angle(Direction::Up, false), 270);
    assert_eq!(rotation_angle(Direction::Left, false), 180);
    assert_eq!(rotation_angle(Direction::Down, false), 90);
    assert_eq!(rotation_angle(Direction::Right, true), 180);
    assert_eq!(rotation_angle(Direction::Up, true), 90);
    assert_eq!(rotation_angle(Direction::Left, true), 0);
    assert_eq!(rotation_angle(Direction::Down, true), 270);
}

#[test]
fn every_direction_gets_every_frame() {
    let f1 = square(RED, GREEN, BLUE, WHITE);
    let f2 = square(WHITE, WHITE, RED, RED);
    let gif = make_gif(2, 2, &[f1.clone(), f2.clone()]);
    let frames = encode_frames(gif, 2, false).ok().unwrap();
    assert_eq!(frames.right.len(), 2);
    assert_eq!(frames.up.len(), 2);
    assert_eq!(frames.left.len(), 2);
    assert_eq!(frames.down.len(), 2);
    assert_eq!(decode_png_b64(&frames.get(Direction::Right)[0]), (2, 2, f1.clone()));
    assert_eq!(decode_png_b64(&frames.get(Direction::Right)[1]), (2, 2, f2.clone()));
    // Down is turned 90 degrees, Left 180, Up 270.
    assert_eq!(decode_png_b64(&frames.get(Direction::Down)[0]).2, turned(&f1, 90));
    assert_eq!(decode_png_b64(&frames.get(Direction::Left)[0]).2, turned(&f1, 180));
    assert_eq!(decode_png_b64(frames.frame_at(Direction::Up, 1)).2, turned(&f2, 270));
}

#[test]
fn clockwise_frames_are_turned_half_way() {
    let f1 = square(RED, GREEN, BLUE, WHITE);
    let gif = make_gif(2, 2, &[f1.clone()]);
    let ccw = encode_frames(gif.clone(), 2, false).ok().unwrap();
    let cw = encode_frames(gif, 2, true).ok().unwrap();
    assert_eq!(cw.left[0], ccw.right[0]);
    assert_eq!(cw.right[0], ccw.left[0]);
    assert_eq!(cw.up[0], ccw.down[0]);
    assert_eq!(cw.down[0], ccw.up[0]);
}

#[test]
fn frames_are_scaled_to_target() {
    let f1 = square(RED, GREEN, BLUE, WHITE);
    let gif = make_gif(2, 2, &[f1]);
    let frames = encode_frames(gif, 4, false).ok().unwrap();
    let (w, h, px) = decode_png_b64(&frames.right[0]);
    assert_eq!((w, h), (4, 4));
    assert_eq!(&px[0..4], &RED);
    assert_eq!(&px[(3 * 4 + 3) * 4..], &WHITE);
}

#[test]
fn frame_texts_are_ascii() {
    let gif = make_gif(2, 2, &[square(RED, GREEN, BLUE, WHITE)]);
    let frames = encode_frames(gif, 3, true).ok().unwrap();
    for list in [&frames.right, &frames.up, &frames.left, &frames.down] {
        for s in list.iter() {
            assert!(s.is_ascii());
        }
    }
}

#[test]
fn not_a_gif_is_a_decode_error() {
    let res = encode_frames(b"not a gif at all".to_vec(), 4, false);
    assert!(matches!(res, Err(FrameError::Decode(_))));
    let res = encode_frames(Vec::new(), 4, false);
    assert!(matches!(res, Err(FrameError::Decode(_))));
}

#[test]
fn truncated_gif_is_a_decode_error() {
    let gif = make_gif(2, 2, &[square(RED, GREEN, BLUE, WHITE)]);
    let cut = gif[..gif.len() - 4].to_vec();
    let res = encode_frames(cut, 4, false);
    assert!(matches!(res, Err(FrameError::Decode(_))));
}

#[test]
fn zero_target_size_cannot_be_encoded() {
    let gif = make_gif(2, 2, &[square(RED, GREEN, BLUE, WHITE)]);
    let res = encode_frames(gif, 0, false);
    assert!(matches!(res, Err(FrameError::Encode(_))));
}

#[test]
fn gif_without_frames_is_refused_by_the_decoder() {
    let gif = make_gif(2, 2, &[]);
    let res = encode_frames(gif, 4, false);
    assert!(matches!(res, Err(FrameError::Decode(_))));
}

#[test]
fn scaling_beyond_usize_is_refused() {
    let gif = make_gif(2, 2, &[square(RED, GREEN, BLUE, WHITE)]);
    let res = encode_frames(gif, u32::MAX, false);
    assert!(matches!(res, Err(FrameError::TooLarge)));
    assert!(mushy::frames::scale_supported(65535, 40));
    assert!(!mushy::frames::scale_supported(2, u32::MAX));
}
