//! What the display shows: live frames or a frozen one, with or without an
//! overlay composited onto it.
use vstd::prelude::*;

use crate::alpha_image::{blended, resamples_planes, AlphaImage};

verus! {

/// Reported by the display.
#[derive(Debug, Clone, Copy, PartialEq, Eq, Structural)]
pub enum EventMsg {
    KeyPressed(i32),
    WindowClosed,
}

/// Sent to the display.
#[derive(Debug)]
pub enum ControlMsg {
    /// Composite this overlay onto every shown frame from now on, or none.
    Blend(Option<AlphaImage>),
    /// Keep showing the current frame; ignore live frames.
    Freeze,
    /// Show live frames again.
    Live,
}

#[derive(Debug, Clone, Copy, PartialEq, Eq, Structural)]
pub enum WindowMode {
    Windowed,
    Fullscreen,
}

#[derive(Debug, Clone, Copy, PartialEq, Eq, Structural)]
pub enum VideoState {
    Live,
    Frozen,
}

/// The event for a key code that the window reported; codes that are not
/// positive mean that no key was pressed.
pub fn key_event(key: i32) -> (r: Option<EventMsg>)
    ensures
        r == (if key > 0 {
            Some(EventMsg::KeyPressed(key))
        } else {
            None
        }),
{
    if key > 0 {
        Some(EventMsg::KeyPressed(key))
    } else {
        None
    }
}

/// The display's state: whether it follows live frames, and the overlay.
#[derive(Debug)]
pub struct Display {
    video_state: VideoState,
    overlay: Option<AlphaImage>,
}

impl Display {
    pub closed spec fn video_state_spec(&self) -> VideoState {
        self.video_state
    }

    pub closed spec fn overlay_spec(&self) -> Option<AlphaImage> {
        self.overlay
    }

    /// Live, without an overlay.
    pub fn new() -> (r: Display)
        ensures
            r.video_state_spec() == VideoState::Live,
            r.overlay_spec() is None,
    {
        Display { video_state: VideoState::Live, overlay: None }
    }

    pub fn video_state(&self) -> (r: VideoState)
        ensures
            r == self.video_state_spec(),
    {
        self.video_state
    }

    /// Whether a newly captured frame replaces the shown one.
    pub fn takes_frames(&self) -> (r: bool)
        ensures
            r == (self.video_state_spec() == VideoState::Live),
    {
        match self.video_state {
            VideoState::Live => true,
            VideoState::Frozen => false,
        }
    }

    /// Applies a control message.
    pub fn apply(&mut self, msg: ControlMsg)
        ensures
            match msg {
                ControlMsg::Blend(o) => final(self).overlay_spec() == o
                    && final(self).video_state_spec() == old(self).video_state_spec(),
                ControlMsg::Freeze => final(self).video_state_spec() == VideoState::Frozen
                    && final(self).overlay_spec() == old(self).overlay_spec(),
                ControlMsg::Live => final(self).video_state_spec() == VideoState::Live
                    && final(self).overlay_spec() == old(self).overlay_spec(),
            },
    {
        match msg {
            ControlMsg::Blend(o) => {
                self.overlay = o;
            },
            ControlMsg::Freeze => {
                self.video_state = VideoState::Frozen;
            },
            ControlMsg::Live => {
                self.video_state = VideoState::Live;
            },
        }
    }

    /// The bytes to show for `frame` (`width` x `height`, three channels per
    /// pixel): the frame itself without an overlay; with one, the overlay is
    /// first resized to the frame's size (kept for later frames) and then
    /// composited onto the frame.
    pub fn compose<F>(&mut self, frame: &Vec<u8>, width: usize, height: usize, resample: F) -> (r:
        Vec<u8>) where F: Fn(Vec<u32>, usize, usize, usize, usize) -> Vec<u32>
        requires
            frame@.len() == width * height * 3,
            resamples_planes(resample),
        ensures
            final(self).video_state_spec() == old(self).video_state_spec(),
            match old(self).overlay_spec() {
                None => final(self).overlay_spec() is None && r@ == frame@,
                Some(o) => final(self).overlay_spec() matches Some(p) && o.resized_to(
                    width as nat,
                    height as nat,
                    p,
                ) && r@ == blended(p, frame@),
            },
    {
        let overlay = self.overlay.take();
        match overlay {
            None => frame.clone(),
            Some(o) => {
                let p = o.resize(width, height, resample);
                let r = p.blend(frame);
                self.overlay = Some(p);
                r
            },
        }
    }
}

} // verus!
