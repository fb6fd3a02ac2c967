use dsh_desktop::dock_blink::{
    assemble_png, content_side, crc32, downsample_half, embed, encode_png, locate_button,
    png_rows, working_icon, Blink, Frame,
};

/// A picture of 64 by 64: a green disc in the lower right, the rest transparent.
fn sample_rgba() -> (usize, usize, Vec<u8>) {
    let (w, h) = (64usize, 64usize);
    let mut rgba = vec![0_u8; w * h * 4];
    let center = (47.0_f64, 47.0_f64);
    let radius = 10.0_f64;
    for y in 0..h {
        for x in 0..w {
            let dx = x as f64 - center.0;
            let dy = y as f64 - center.1;
            if (dx * dx + dy * dy).sqrt() <= radius {
                let index = (y * w + x) * 4;
                rgba[index] = 63;
                rgba[index + 1] = 163;
                rgba[index + 2] = 87;
                rgba[index + 3] = 255;
            }
        }
    }
    (w, h, rgba)
}

#[test]
fn encode_png_produces_valid_stream() {
    let (width, height, rgba) = sample_rgba();
    let png = encode_png(&rgba, width, height);
    assert!(png.len() > 8);
    assert_eq!(&png[..8], &[0x89, b'P', b'N', b'G', 0x0D, 0x0A, 0x1A, 0x0A]);
    assert!(png.windows(4).any(|w| w == b"IDAT"));
    assert!(png.windows(4).any(|w| w == b"IEND"));
}

#[test]
fn downsample_half_keeps_button_visible() {
    let (w, h, rgba) = sample_rgba();
    let half = downsample_half(&rgba, w, h);
    let hits = half
        .chunks(4)
        .filter(|p| p[3] > 60 && p[1] > 110 && p[1] as u16 > p[0] as u16 + 14)
        .count();
    assert!(hits > 0, "降采样不应丢失绿色按钮");
}

/// The same computation in floating point.
fn halved_in_floats(rgba: &[u8], width: usize, height: usize) -> Vec<u8> {
    let (out_w, out_h) = (width / 2, height / 2);
    let mut out = vec![0_u8; out_w * out_h * 4];
    for y in 0..out_h {
        for x in 0..out_w {
            let (mut sums, mut alpha_sum) = ([0_f64; 3], 0_f64);
            for dy in 0..2 {
                for dx in 0..2 {
                    let index = (((2 * y + dy) * width) + (2 * x + dx)) * 4;
                    let alpha = rgba[index + 3] as f64;
                    for channel in 0..3 {
                        sums[channel] += rgba[index + channel] as f64 * alpha;
                    }
                    alpha_sum += alpha;
                }
            }
            let at = (y * out_w + x) * 4;
            if alpha_sum > 0.0 {
                for channel in 0..3 {
                    out[at + channel] = (sums[channel] / alpha_sum).round() as u8;
                }
            }
            out[at + 3] = (alpha_sum / 4.0).round() as u8;
        }
    }
    out
}

#[test]
fn halving_gives_the_rounded_means() {
    let mut seed: u32 = 12345;
    let mut rgba = Vec::new();
    for _ in 0..(33 * 21 * 4) {
        seed = seed.wrapping_mul(1664525).wrapping_add(1013904223);
        rgba.push((seed >> 24) as u8);
    }
    assert_eq!(downsample_half(&rgba, 33, 21), halved_in_floats(&rgba, 33, 21));
    let four = [10, 20, 30, 1, 11, 20, 30, 1, 10, 20, 30, 0, 10, 20, 30, 0];
    assert_eq!(downsample_half(&four, 2, 2), vec![11, 20, 30, 1]);
}

#[test]
fn the_icon_is_halved_to_its_working_size() {
    let icon = working_icon(vec![200; 600 * 520 * 4], 600, 520).unwrap();
    assert_eq!((icon.width, icon.height), (150, 130));
    assert_eq!(icon.rgba.len(), 150 * 130 * 4);
    let icon = working_icon(vec![7; 4], 1, 1).unwrap();
    assert_eq!(icon.rgba, vec![7; 4]);
    assert!(working_icon(Vec::new(), 0, 5).is_none());
    assert!(working_icon(vec![7; 35], 3, 3).is_none());
    assert!(working_icon(vec![7; 35], usize::MAX, 3).is_none());
}

#[test]
fn the_picture_is_centered_in_its_margin() {
    assert_eq!(content_side(256), 205);
    assert_eq!(content_side(1), 1);
    let canvas = embed(&[9, 8, 7, 6], 1, 3);
    let mut expected = vec![0; 36];
    expected[16..20].copy_from_slice(&[9, 8, 7, 6]);
    assert_eq!(canvas, expected);
}

#[test]
fn the_button_is_found_by_colour_and_else_by_place() {
    let (w, h, rgba) = sample_rgba();
    let found = locate_button(&rgba, w, h);
    assert_eq!(found.len(), 317);
    assert!(found.contains(&((47 * w + 47) * 4)));
    for index in &found {
        let pixel = index / 4;
        assert!(pixel / w >= 32 && pixel % w >= 32);
        assert_eq!(rgba[index + 1], 163);
    }
    let blank = vec![0; 100 * 100 * 4];
    let found = locate_button(&blank, 100, 100);
    assert!(found.contains(&((73 * 100 + 73) * 4)));
    assert!(found.contains(&((73 * 100 + 85) * 4)));
    assert!(!found.contains(&((73 * 100 + 86) * 4)));
    assert!(!found.contains(&((82 * 100 + 82) * 4)));
}

#[test]
fn checksums_are_the_usual_ones() {
    assert_eq!(crc32(b"123456789"), 0xCBF4_3926);
    assert_eq!(crc32(b"IEND"), 0xAE42_6082);
    assert_eq!(crc32(b""), 0);
}

#[test]
fn a_png_file_has_its_chunks_in_order() {
    let png = assemble_png(&[1, 2, 3], 2, 1);
    let mut expected = vec![0x89, 0x50, 0x4E, 0x47, 0x0D, 0x0A, 0x1A, 0x0A];
    expected.extend_from_slice(&[0, 0, 0, 13]);
    expected.extend_from_slice(b"IHDR");
    expected.extend_from_slice(&[0, 0, 0, 2, 0, 0, 0, 1, 8, 6, 0, 0, 0]);
    let header_sum = crc32(&expected[12..]);
    expected.extend_from_slice(&header_sum.to_be_bytes());
    expected.extend_from_slice(&[0, 0, 0, 3]);
    expected.extend_from_slice(b"IDAT");
    expected.extend_from_slice(&[1, 2, 3]);
    expected.extend_from_slice(&crc32(&[73, 68, 65, 84, 1, 2, 3]).to_be_bytes());
    expected.extend_from_slice(&[0, 0, 0, 0]);
    expected.extend_from_slice(b"IEND");
    expected.extend_from_slice(&[0xAE, 0x42, 0x60, 0x82]);
    assert_eq!(png, expected);
    assert_eq!(png_rows(&[5, 6, 7, 8, 9, 10, 11, 12], 1, 2), vec![0, 5, 6, 7, 8, 0, 9, 10, 11, 12]);
}

#[test]
fn the_compressed_rows_can_be_read_back() {
    let (width, height, rgba) = sample_rgba();
    let png = encode_png(&rgba, width, height);
    let length = u32::from_be_bytes([png[33], png[34], png[35], png[36]]) as usize;
    assert_eq!(&png[37..41], b"IDAT");
    let mut decoder = flate2::read::ZlibDecoder::new(&png[41..41 + length]);
    let mut rows = Vec::new();
    std::io::Read::read_to_end(&mut decoder, &mut rows).unwrap();
    assert_eq!(rows, png_rows(&rgba, width, height));
    assert!(length < rows.len());
}

#[test]
fn the_icon_blinks_while_sessions_run_and_rests_afterwards() {
    let mut blink = Blink::new();
    assert_eq!(blink.tick(false), None);
    assert_eq!(blink.tick(true), Some(Frame::Green));
    assert_eq!(blink.tick(true), Some(Frame::Red));
    assert_eq!(blink.tick(false), Some(Frame::Green));
    assert_eq!(blink.tick(false), None);
    assert_eq!(blink.tick(true), Some(Frame::Green));
    assert_eq!(blink.tick(false), Some(Frame::Green));
}
