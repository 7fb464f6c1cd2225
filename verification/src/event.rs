//! Events that flow from the tray, hotkeys, overlays and editor to the
//! capture state machine.
use vstd::prelude::*;
use crate::geometry::Rect;

verus! {

#[derive(Clone, Debug)]
pub enum AppEvent {
    CaptureRegion,
    CaptureActiveWindow,
    CapturePickWindow,
    CaptureFullscreen,
    OverlayCancelled,
    RegionSelected(Rect),
    /// The picked window's handle, as an integer.
    WindowPicked(isize),
    EditorSave { to_clipboard: bool, path: Option<String> },
    EditorCancelled,
    /// Double-click on the tray icon: bring the editor forward.
    ShowEditor,
    TrayQuit,
}

} // verus!
