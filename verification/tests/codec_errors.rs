//! Refusals and exact accuracy of the colour converter.

use screenshare::webrtc_client::codec::{bgra_to_i420_into, CodecError, ConversionError};

#[test]
fn odd_height_is_refused() {
    let mut out = vec![1, 2, 3];
    let r = bgra_to_i420_into(&[0; 24], 2, 3, 8, &mut out);
    assert_eq!(r, Err(CodecError::OddDimensions));
    assert_eq!(out, vec![1, 2, 3], "the output is left alone");
    assert_eq!(r.unwrap_err().to_string(), "width and height must be even for I420");
}

#[test]
fn short_buffer_is_refused_with_both_lengths() {
    let mut out = vec![9];
    let r = bgra_to_i420_into(&[0; 32], 4, 4, 16, &mut out);
    assert_eq!(r, Err(CodecError::BufferTooSmall { len: 32, needed: 64 }));
    assert_eq!(out, vec![9]);
    assert_eq!(r.unwrap_err().to_string(), "bgra buffer too small: 32 < 64");
}

#[test]
fn empty_image_is_refused_by_the_converter() {
    let mut out = vec![5; 4];
    let r = bgra_to_i420_into(&[], 0, 2, 0, &mut out);
    assert_eq!(r, Err(CodecError::Conversion(ConversionError::ZeroBaseSize)));
    assert!(out.is_empty(), "the output is resized before the converter is asked");
    assert_eq!(r.unwrap_err().to_string(), "bgra_to_yuv420: ZeroBaseSize");
}

#[test]
fn stride_shorter_than_a_row_is_refused() {
    let mut out = vec![7; 2];
    // Long enough for the last row, but the rows overlap.
    let r = bgra_to_i420_into(&[0; 64], 4, 2, 8, &mut out);
    assert_eq!(r, Err(CodecError::Conversion(ConversionError::MinimumStrideSizeMismatch(16, 8))));
    assert_eq!(out, [vec![7; 2], vec![0; 10]].concat());
    assert_eq!(
        r.unwrap_err().to_string(),
        "bgra_to_yuv420: MinimumStrideSizeMismatch(MismatchedSize { expected: 16, received: 8 })"
    );
}

#[test]
fn last_row_past_the_end_is_refused() {
    let mut out = Vec::new();
    let r = bgra_to_i420_into(&[0; 16], 4, 2, 8, &mut out);
    assert_eq!(r, Err(CodecError::Conversion(ConversionError::DestinationSizeMismatch(16, 16))));
    assert_eq!(out, vec![0; 12]);
    assert_eq!(
        r.unwrap_err().to_string(),
        "bgra_to_yuv420: DestinationSizeMismatch(MismatchedSize { expected: 16, received: 16 })"
    );
}

#[test]
fn tall_image_of_no_width_is_refused() {
    let mut out = Vec::new();
    let r = bgra_to_i420_into(&[], 0, 0x8000_0000, 0, &mut out);
    assert_eq!(r, Err(CodecError::Conversion(ConversionError::ZeroBaseSize)));
}

#[test]
fn other_refusals_have_words() {
    assert_eq!(
        CodecError::Conversion(ConversionError::PointerOverflow).to_string(),
        "bgra_to_yuv420: PointerOverflow"
    );
    assert_eq!(
        CodecError::Conversion(ConversionError::Other).to_string(),
        "bgra_to_yuv420: Other"
    );
}

#[test]
fn every_sample_is_close_to_the_formula() {
    // A picture in which every pixel differs, wide enough for every code path,
    // with padding after each row.
    let (w, h, stride) = (130usize, 66usize, 130 * 4 + 12);
    let mut bgra = vec![0xaau8; stride * h];
    let mut x: u32 = 12345;
    for row in 0..h {
        for col in 0..w {
            for c in 0..3 {
                x = x.wrapping_mul(1_664_525).wrapping_add(1_013_904_223);
                bgra[row * stride + col * 4 + c] = (x >> 24) as u8;
            }
        }
    }
    let mut out = Vec::new();
    bgra_to_i420_into(&bgra, w as u32, h as u32, stride as u32, &mut out).unwrap();
    let at = |col: usize, row: usize, c: usize| bgra[row * stride + col * 4 + c] as f64;
    for row in 0..h {
        for col in 0..w {
            let y = 0.299 * at(col, row, 2) + 0.587 * at(col, row, 1) + 0.114 * at(col, row, 0);
            let exact = 16.0 + 219.0 / 255.0 * y;
            assert!((out[row * w + col] as f64 - exact).abs() <= 1.2, "luma {col},{row}");
        }
    }
    let (cw, ch) = (w / 2, h / 2);
    for row in 0..ch {
        for col in 0..cw {
            let mean = |c: usize| {
                (at(2 * col, 2 * row, c)
                    + at(2 * col + 1, 2 * row, c)
                    + at(2 * col, 2 * row + 1, c)
                    + at(2 * col + 1, 2 * row + 1, c))
                    / 4.0
            };
            let y = 0.299 * mean(2) + 0.587 * mean(1) + 0.114 * mean(0);
            let cb = 128.0 + 224.0 / 255.0 * (mean(0) - y) / 1.772;
            let cr = 128.0 + 224.0 / 255.0 * (mean(2) - y) / 1.402;
            let u = out[w * h + row * cw + col] as f64;
            let v = out[w * h + cw * ch + row * cw + col] as f64;
            assert!((u - cb).abs() <= 1.2, "blue difference {col},{row}: {u} for {cb}");
            assert!((v - cr).abs() <= 1.2, "red difference {col},{row}: {v} for {cr}");
        }
    }
}

#[test]
fn corners_of_the_colour_cube_are_close_to_the_formula() {
    // Every block of two by two pixels out of the eight corner colours.
    let corner = |n: usize| [255 * (n & 1), 255 * (n >> 1 & 1), 255 * (n >> 2 & 1)];
    let side = 128usize;
    let mut bgra = vec![255u8; side * side * 4];
    let colour = |col: usize, row: usize| {
        let block = (row / 2) * (side / 2) + col / 2;
        let place = (row % 2) * 2 + col % 2;
        corner(block >> (3 * place) & 7)
    };
    for row in 0..side {
        for col in 0..side {
            for c in 0..3 {
                bgra[(row * side + col) * 4 + c] = colour(col, row)[c] as u8;
            }
        }
    }
    let mut out = Vec::new();
    bgra_to_i420_into(&bgra, side as u32, side as u32, side as u32 * 4, &mut out).unwrap();
    let half = side / 2;
    for row in 0..half {
        for col in 0..half {
            let mut sum = [0.0f64; 3];
            for (dx, dy) in [(0, 0), (1, 0), (0, 1), (1, 1)] {
                let px = colour(2 * col + dx, 2 * row + dy);
                let (b, g, r) = (px[0] as f64, px[1] as f64, px[2] as f64);
                let exact = 16.0 + 219.0 / 255.0 * (0.299 * r + 0.587 * g + 0.114 * b);
                let y = out[(2 * row + dy) * side + 2 * col + dx] as f64;
                assert!((y - exact).abs() <= 1.2);
                for c in 0..3 {
                    sum[c] += px[c] as f64 / 4.0;
                }
            }
            let luma = 0.299 * sum[2] + 0.587 * sum[1] + 0.114 * sum[0];
            let cb = 128.0 + 224.0 / 255.0 * (sum[0] - luma) / 1.772;
            let cr = 128.0 + 224.0 / 255.0 * (sum[2] - luma) / 1.402;
            let at = side * side + row * half + col;
            assert!((out[at] as f64 - cb).abs() <= 1.2);
            assert!((out[at + half * half] as f64 - cr).abs() <= 1.2);
        }
    }
}

#[test]
fn padding_and_old_contents_make_no_difference() {
    let (w, h) = (46usize, 34usize);
    let pixel = |row: usize, i: usize| (row * 131 + i * 57 + row * i) as u8;
    let convert = |padding: usize, fill: u8, mut out: Vec<u8>| {
        let stride = 4 * w + padding;
        let mut bgra = vec![fill; stride * h];
        for row in 0..h {
            for i in 0..4 * w {
                bgra[row * stride + i] = pixel(row, i);
            }
        }
        bgra_to_i420_into(&bgra, w as u32, h as u32, stride as u32, &mut out).unwrap();
        out
    };
    let plain = convert(0, 0, Vec::new());
    assert_eq!(plain.len(), w * h * 3 / 2);
    for (padding, fill) in [(4, 0), (4, 255), (60, 17), (1, 200)] {
        assert_eq!(convert(padding, fill, vec![fill; 7]), plain);
        assert_eq!(convert(padding, fill, vec![!fill; plain.len()]), plain);
    }
}
