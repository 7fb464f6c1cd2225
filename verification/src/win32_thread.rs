//! Decisions of the window thread: which capture a hotkey starts and what a
//! tray-menu choice does.
use vstd::prelude::*;
use crate::app_state::{CaptureMode, MainCmd};

verus! {

/// The capture a WM_HOTKEY with this id starts on the window thread.
pub fn hotkey_capture_mode(id: u32) -> (m: Option<CaptureMode>)
    ensures
        m == (if id == 1 {
            Some(CaptureMode::FullScreen)
        } else if id == 2 {
            Some(CaptureMode::ActiveWindow)
        } else if id == 3 {
            Some(CaptureMode::Region)
        } else if id == 4 {
            Some(CaptureMode::SelectWindow)
        } else {
            None
        }),
{
    if id == 1 {
        Some(CaptureMode::FullScreen)
    } else if id == 2 {
        Some(CaptureMode::ActiveWindow)
    } else if id == 3 {
        Some(CaptureMode::Region)
    } else if id == 4 {
        Some(CaptureMode::SelectWindow)
    } else {
        None
    }
}

/// What the hidden window's tray menu asks for: 100 show the main window,
/// 101 capture the full screen, 102 quit.
pub fn tray_menu_command(cmd: u32) -> (c: Option<MainCmd>)
    ensures
        c == (if cmd == 100 {
            Some(MainCmd::ShowWindow)
        } else if cmd == 101 {
            Some(MainCmd::StartCapture(CaptureMode::FullScreen))
        } else if cmd == 102 {
            Some(MainCmd::Quit)
        } else {
            None
        }),
{
    if cmd == 100 {
        Some(MainCmd::ShowWindow)
    } else if cmd == 101 {
        Some(MainCmd::StartCapture(CaptureMode::FullScreen))
    } else if cmd == 102 {
        Some(MainCmd::Quit)
    } else {
        None
    }
}

} // verus!
