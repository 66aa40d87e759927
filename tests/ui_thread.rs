use photobooth::alpha_image::AlphaImage;
use photobooth::ui_thread::{key_event, ControlMsg, Display, EventMsg, VideoState};

fn nearest(plane: Vec<u32>, w0: usize, h0: usize, w1: usize, h1: usize) -> Vec<u32> {
    let mut out = Vec::with_capacity(w1 * h1 * 3);
    for y in 0..h1 {
        for x in 0..w1 {
            let sx = x * w0 / w1;
            let sy = y * h0 / h1;
            for c in 0..3 {
                out.push(plane[(sy * w0 + sx) * 3 + c]);
            }
        }
    }
    out
}

#[test]
fn key_codes() {
    assert_eq!(key_event(13), Some(EventMsg::KeyPressed(13)));
    assert_eq!(key_event(0), None);
    assert_eq!(key_event(-1), None);
}

#[test]
fn freeze_and_live() {
    let mut d = Display::new();
    assert!(d.takes_frames());
    d.apply(ControlMsg::Freeze);
    assert_eq!(d.video_state(), VideoState::Frozen);
    assert!(!d.takes_frames());
    d.apply(ControlMsg::Live);
    assert!(d.takes_frames());
}

#[test]
fn compose_without_overlay_shows_frame() {
    let mut d = Display::new();
    let frame = vec![1u8, 2, 3, 4, 5, 6];
    assert_eq!(d.compose(&frame, 2, 1, nearest), frame);
}

#[test]
fn compose_resizes_overlay_to_frame() {
    let mut d = Display::new();
    let overlay = AlphaImage::new(vec![10, 20, 30, 255], 1, 1, 4).unwrap();
    d.apply(ControlMsg::Blend(Some(overlay)));
    let frame = vec![0u8; 2 * 2 * 3];
    assert_eq!(d.compose(&frame, 2, 2, nearest), [10u8, 20, 30].repeat(4));
    d.apply(ControlMsg::Blend(None));
    assert_eq!(d.compose(&frame, 2, 2, nearest), frame);
}
