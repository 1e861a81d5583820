use novelai::picture::{
    animation_step, decode_gif, decode_image, frame_delay_at, frame_delay_ms, gif_from_frames,
    is_gif, shown_frame, Bitmap, GifFrame,
};

fn png_bytes() -> Vec<u8> {
    let mut img = image::RgbaImage::new(2, 1);
    img.put_pixel(0, 0, image::Rgba([255, 0, 0, 255]));
    img.put_pixel(1, 0, image::Rgba([0, 0, 255, 128]));
    let mut out = std::io::Cursor::new(Vec::new());
    img.write_to(&mut out, image::ImageFormat::Png).unwrap();
    out.into_inner()
}

fn gif_bytes(delays_ms: &[u32]) -> Vec<u8> {
    let mut out = Vec::new();
    {
        let mut enc = image::codecs::gif::GifEncoder::new(&mut out);
        for (i, d) in delays_ms.iter().enumerate() {
            let shade = (i as u8) * 100;
            let buf = image::RgbaImage::from_pixel(3, 2, image::Rgba([shade, 0, 0, 255]));
            let frame = image::Frame::from_parts(buf, 0, 0, image::Delay::from_numer_denom_ms(*d, 1));
            enc.encode_frame(frame).unwrap();
        }
    }
    out
}

fn bitmap(w: u32, h: u32) -> Bitmap {
    Bitmap { width: w, height: h, rgba: vec![0; (w * h * 4) as usize] }
}

#[test]
fn gif_signature_is_recognised() {
    assert!(is_gif(b"GIF89a\x01\x00"));
    assert!(is_gif(b"GIF87a"));
    assert!(!is_gif(b"GIF"));
    assert!(!is_gif(b"\x89PNG\r\n"));
    assert!(!is_gif(&png_bytes()));
    assert!(is_gif(&gif_bytes(&[40])));
}

#[test]
fn frame_delays_are_rounded_and_floored() {
    assert_eq!(frame_delay_ms(0, 0), 100);
    assert_eq!(frame_delay_ms(10, 1), 20);
    assert_eq!(frame_delay_ms(100, 1), 100);
    assert_eq!(frame_delay_ms(251, 2), 125);
    assert_eq!(frame_delay_ms(39, 2), 20);
}

#[test]
fn png_decodes_to_rgba_pixels() {
    let b = decode_image(&png_bytes()).unwrap();
    assert_eq!((b.width, b.height), (2, 1));
    assert_eq!(b.rgba, vec![255, 0, 0, 255, 0, 0, 255, 128]);
}

#[test]
fn garbage_is_not_a_picture() {
    assert!(decode_image(b"not a picture at all").is_err());
    assert!(decode_gif(b"GIF89a").is_err());
}

#[test]
fn gif_without_frames_is_refused() {
    match gif_from_frames(Vec::new()) {
        Err(e) => assert_eq!(e, "GIF 无可用帧"),
        Ok(_) => panic!("an empty animation was accepted"),
    }
}

#[test]
fn frames_keep_their_pictures_and_delays() {
    let frames = vec![
        GifFrame { image: bitmap(1, 1), delay_numer: 0, delay_denom: 0 },
        GifFrame { image: bitmap(2, 3), delay_numer: 70, delay_denom: 1 },
        GifFrame { image: bitmap(4, 1), delay_numer: 5, delay_denom: 1 },
    ];
    let (images, delays) = gif_from_frames(frames).unwrap();
    assert_eq!(delays, vec![100, 70, 20]);
    let sizes: Vec<(u32, u32)> = images.iter().map(|b| (b.width, b.height)).collect();
    assert_eq!(sizes, vec![(1, 1), (2, 3), (4, 1)]);
    assert_eq!(images[1].rgba.len(), 24);
}

#[test]
fn encoded_gif_decodes_with_its_delays() {
    let (images, delays) = decode_gif(&gif_bytes(&[50, 10, 200])).unwrap();
    assert_eq!(images.len(), 3);
    assert_eq!(delays, vec![50, 20, 200]);
    for b in &images {
        assert_eq!((b.width, b.height), (3, 2));
        assert_eq!(b.rgba.len(), 24);
    }
}

#[test]
fn delay_lookup_defaults_and_floors() {
    let delays = vec![0, 45];
    assert_eq!(frame_delay_at(&delays, 0), 20);
    assert_eq!(frame_delay_at(&delays, 1), 45);
    assert_eq!(frame_delay_at(&delays, 2), 100);
}

#[test]
fn animation_advances_after_its_delay() {
    let delays = vec![50, 30, 40];
    assert_eq!(animation_step(&delays, 0, 3, 49), (0, false, Some(50)));
    assert_eq!(animation_step(&delays, 0, 3, 50), (1, true, Some(50)));
    assert_eq!(animation_step(&delays, 2, 3, 41), (0, true, Some(40)));
    assert_eq!(animation_step(&vec![0], 0, 1, 1000), (0, false, None));
    assert_eq!(animation_step(&Vec::new(), 0, 0, 1000), (0, false, None));
}

#[test]
fn shown_frame_is_held_to_the_last() {
    assert_eq!(shown_frame(1, 3), 1);
    assert_eq!(shown_frame(5, 3), 2);
    assert_eq!(shown_frame(0, 1), 0);
}

#[test]
fn webp_decodes_to_rgba_pixels() {
    let mut img = image::RgbaImage::new(2, 1);
    img.put_pixel(0, 0, image::Rgba([10, 20, 30, 255]));
    img.put_pixel(1, 0, image::Rgba([200, 100, 0, 255]));
    let mut out = std::io::Cursor::new(Vec::new());
    img.write_to(&mut out, image::ImageFormat::WebP).unwrap();
    let bytes = out.into_inner();
    assert!(!is_gif(&bytes));
    let b = decode_image(&bytes).unwrap();
    assert_eq!((b.width, b.height), (2, 1));
    assert_eq!(b.rgba, vec![10, 20, 30, 255, 200, 100, 0, 255]);
}
