//! Capture modes, captured images, and the messages between the window
//! thread and the main thread.
use vstd::prelude::*;

verus! {

#[derive(Clone, Copy, Debug, PartialEq, Eq, Structural)]
pub enum CaptureMode {
    FullScreen,
    ActiveWindow,
    Region,
    SelectWindow,
}

/// A captured image: RGBA or BGRA bytes, row-major.
#[derive(Clone, Debug)]
pub struct CapturedImage {
    pub data: Vec<u8>,
    pub width: u32,
    pub height: u32,
}

pub enum Win32Event {
    CaptureResult(CapturedImage),
    CaptureCancelled,
    ShowWindow,
    HideWindow,
}

#[derive(Clone, Copy, Debug, PartialEq, Eq, Structural)]
pub enum MainCmd {
    StartCapture(CaptureMode),
    ShowWindow,
    HideWindow,
    Quit,
}

} // verus!
