use photobooth::alpha_image::{AlphaImage, AlphaImageError};

fn is_send<T: Send>() {}

/// Nearest-neighbour resampling of a three-channel plane.
fn nearest(plane: Vec<u32>, w0: usize, h0: usize, w1: usize, h1: usize) -> Vec<u32> {
    let mut out = Vec::with_capacity(w1 * h1 * 3);
    for y in 0..h1 {
        for x in 0..w1 {
            let sx = if w1 == 0 { 0 } else { x * w0 / w1 };
            let sy = if h1 == 0 { 0 } else { y * h0 / h1 };
            for c in 0..3 {
                out.push(plane[(sy * w0 + sx) * 3 + c]);
            }
        }
    }
    out
}

fn solid(width: usize, height: usize, rgba: [u8; 4]) -> AlphaImage {
    let mut pixels = Vec::new();
    for _ in 0..width * height {
        pixels.extend_from_slice(&rgba);
    }
    AlphaImage::new(pixels, width, height, 4).unwrap()
}

#[test]
fn alpha_image_is_send() {
    is_send::<AlphaImage>();
}

#[test]
fn new_premultiplies_and_inverts_alpha() {
    let img = AlphaImage::new(vec![100, 50, 200, 128, 10, 20, 30, 255], 2, 1, 4).unwrap();
    assert_eq!(img.width(), 2);
    assert_eq!(img.height(), 1);
    assert_eq!(img.rgb(), &vec![12800, 6400, 25600, 2550, 5100, 7650]);
    assert_eq!(img.beta(), &vec![127, 127, 127, 0, 0, 0]);
}

#[test]
fn new_refuses_three_channels() {
    let r = AlphaImage::new(vec![1, 2, 3], 1, 1, 3);
    assert_eq!(r.unwrap_err(), AlphaImageError::NotRgba);
}

#[test]
fn new_refuses_wrong_length() {
    let r = AlphaImage::new(vec![1, 2, 3, 4, 5], 1, 1, 4);
    assert_eq!(r.unwrap_err(), AlphaImageError::SizeMismatch);
    let r = AlphaImage::new(vec![], usize::MAX, 2, 4);
    assert_eq!(r.unwrap_err(), AlphaImageError::SizeMismatch);
}

#[test]
fn new_accepts_empty_image() {
    let img = AlphaImage::new(vec![], 0, 0, 4).unwrap();
    assert!(img.rgb().is_empty());
    assert!(img.beta().is_empty());
}

#[test]
fn opaque_overlay_hides_background() {
    let img = solid(2, 2, [10, 20, 30, 255]);
    let dark = vec![0u8; 12];
    let bright = vec![255u8; 12];
    let expected: Vec<u8> = [10u8, 20, 30].repeat(4);
    assert_eq!(img.blend(&dark), expected);
    assert_eq!(img.blend(&bright), expected);
}

#[test]
fn transparent_overlay_keeps_background() {
    let img = solid(2, 1, [200, 100, 50, 0]);
    let frame = vec![0u8, 1, 127, 128, 254, 255];
    assert_eq!(img.blend(&frame), frame);
}

#[test]
fn half_transparent_overlay_mixes() {
    // background 100 under color 200 at alpha 128:
    // (100 * 127 + 200 * 128 + 127) / 255 = 150
    let img = solid(1, 1, [200, 200, 200, 128]);
    assert_eq!(img.blend(&vec![100, 100, 100]), vec![150, 150, 150]);
}

#[test]
fn resize_to_same_size_is_identity() {
    let img = AlphaImage::new(vec![1, 2, 3, 4, 5, 6, 7, 8], 2, 1, 4).unwrap();
    let rgb = img.rgb().clone();
    let beta = img.beta().clone();
    let same = img.resize(2, 1, |_p: Vec<u32>, _a: usize, _b: usize, _c: usize, _d: usize| -> Vec<u32> {
        panic!("resampling is not needed")
    });
    assert_eq!(same.rgb(), &rgb);
    assert_eq!(same.beta(), &beta);
}

#[test]
fn resize_changes_both_planes() {
    let img = solid(1, 1, [10, 20, 30, 255]);
    let big = img.resize(3, 2, nearest);
    assert_eq!((big.width(), big.height()), (3, 2));
    assert_eq!(big.rgb().len(), 18);
    assert_eq!(big.beta().len(), 18);
    assert_eq!(big.rgb(), &[2550u32, 5100, 7650].repeat(6));
}

#[test]
fn resize_twice_matches_direct_size() {
    let a = solid(4, 4, [1, 2, 3, 4]);
    let b = solid(4, 4, [1, 2, 3, 4]);
    let twice = a.resize(2, 3, nearest).resize(5, 1, nearest);
    let direct = b.resize(5, 1, nearest);
    assert_eq!((twice.width(), twice.height()), (direct.width(), direct.height()));
    assert_eq!(twice.rgb().len(), direct.rgb().len());
}
