//! Global hotkeys: Alt+Shift+R region, Alt+Shift+A active window,
//! Alt+Shift+W pick a window, Alt+Shift+F full screen.
use vstd::prelude::*;
use crate::event::AppEvent;

verus! {

pub const ID_HOTKEY_REGION: i32 = 1;
pub const ID_HOTKEY_ACTIVE: i32 = 2;
pub const ID_HOTKEY_PICK: i32 = 3;
pub const ID_HOTKEY_FULLSCREEN: i32 = 4;

/// MOD_ALT | MOD_SHIFT.
pub const HOTKEY_MODIFIERS: u32 = 0x0005;

/// The four hotkey ids, in registration order.
pub open spec fn is_hotkey_id(id: i32) -> bool {
    1 <= id <= 4
}

/// The virtual-key code registered for a hotkey id: R, A, W, F.
pub open spec fn spec_hotkey_key(id: i32) -> u32 {
    if id == ID_HOTKEY_REGION {
        0x52
    } else if id == ID_HOTKEY_ACTIVE {
        0x41
    } else if id == ID_HOTKEY_PICK {
        0x57
    } else {
        0x46
    }
}

/// The event a WM_HOTKEY with this id raises, if any.
pub open spec fn spec_hotkey_event(id: i32) -> Option<AppEvent> {
    if id == ID_HOTKEY_REGION {
        Some(AppEvent::CaptureRegion)
    } else if id == ID_HOTKEY_ACTIVE {
        Some(AppEvent::CaptureActiveWindow)
    } else if id == ID_HOTKEY_PICK {
        Some(AppEvent::CapturePickWindow)
    } else if id == ID_HOTKEY_FULLSCREEN {
        Some(AppEvent::CaptureFullscreen)
    } else {
        None
    }
}

/// The virtual-key code to register for hotkey `id` (with Alt+Shift).
pub fn hotkey_key(id: i32) -> (vk: u32)
    requires
        is_hotkey_id(id),
    ensures
        vk == spec_hotkey_key(id),
{
    if id == ID_HOTKEY_REGION {
        0x52
    } else if id == ID_HOTKEY_ACTIVE {
        0x41
    } else if id == ID_HOTKEY_PICK {
        0x57
    } else {
        0x46
    }
}

/// The event to send for a WM_HOTKEY message with this id; `None` for ids
/// this program did not register.
pub fn handle_wm_hotkey(id: i32) -> (e: Option<AppEvent>)
    ensures
        e == spec_hotkey_event(id),
{
    if id == ID_HOTKEY_REGION {
        Some(AppEvent::CaptureRegion)
    } else if id == ID_HOTKEY_ACTIVE {
        Some(AppEvent::CaptureActiveWindow)
    } else if id == ID_HOTKEY_PICK {
        Some(AppEvent::CapturePickWindow)
    } else if id == ID_HOTKEY_FULLSCREEN {
        Some(AppEvent::CaptureFullscreen)
    } else {
        None
    }
}

/// Every registered hotkey raises a capture request, and each key raises the
/// capture its letter names: R region, A active window, W pick window, F full
/// screen.
pub proof fn lemma_registered_hotkeys_capture(id: i32)
    requires
        is_hotkey_id(id),
    ensures
        spec_hotkey_event(id) is Some,
        spec_hotkey_key(id) == 0x52 ==> spec_hotkey_event(id) == Some(AppEvent::CaptureRegion),
        spec_hotkey_key(id) == 0x41 ==> spec_hotkey_event(id) == Some(AppEvent::CaptureActiveWindow),
        spec_hotkey_key(id) == 0x57 ==> spec_hotkey_event(id) == Some(AppEvent::CapturePickWindow),
        spec_hotkey_key(id) == 0x46 ==> spec_hotkey_event(id) == Some(AppEvent::CaptureFullscreen),
{
}

} // verus!
