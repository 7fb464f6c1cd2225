//! The capture state machine: which overlay is open, and what to do next for
//! each event. The caller runs the overlays, countdowns and captures that the
//! returned action names.
use vstd::prelude::*;
use crate::event::AppEvent;
use crate::geometry::Rect;

verus! {

#[derive(Clone, Copy, Debug, PartialEq, Eq, Structural)]
pub enum AppState {
    Idle,
    OverlayRegion,
    OverlayPick,
}

/// The capture settings in force when an event is handled.
#[derive(Clone, Copy, Debug, PartialEq, Eq, Structural)]
pub struct CaptureSettings {
    pub delay_secs: u32,
    pub capture_cursor: bool,
    pub auto_copy: bool,
    pub hide_editor: bool,
}

/// What the caller does after a transition.
#[derive(Clone, Copy, Debug, PartialEq, Eq, Structural)]
pub enum Action {
    Nothing,
    /// Optionally hide the editor, then run the drag-to-select overlay.
    ShowRegionOverlay { hide_editor: bool },
    /// Optionally hide the editor, then run the window-pick overlay.
    ShowPickOverlay { hide_editor: bool },
    /// Optionally hide the editor, count down with the window framed, then
    /// capture the foreground window.
    CaptureActiveWindow { settings: CaptureSettings },
    /// Optionally hide the editor, count down with the screen framed, then
    /// capture the whole virtual screen.
    CaptureFullscreen { settings: CaptureSettings },
    /// Count down (or pause briefly), then capture the selected rectangle.
    CaptureRegion { rect: Rect, delay_secs: u32, capture_cursor: bool, auto_copy: bool },
    /// Count down (or pause briefly), then capture the picked window.
    CaptureWindow { hwnd: isize, delay_secs: u32, capture_cursor: bool, auto_copy: bool },
    /// Bring the editor window forward.
    ShowEditor,
    /// Tell the editor to close, and stop handling events.
    Quit,
}

pub open spec fn spec_step(state: AppState, event: AppEvent, s: CaptureSettings) -> (AppState, Action) {
    match event {
        AppEvent::TrayQuit => (state, Action::Quit),
        AppEvent::ShowEditor => (state, Action::ShowEditor),
        AppEvent::CaptureRegion => if state == AppState::Idle {
            (AppState::OverlayRegion, Action::ShowRegionOverlay { hide_editor: s.hide_editor })
        } else {
            (state, Action::Nothing)
        },
        AppEvent::CapturePickWindow => if state == AppState::Idle {
            (AppState::OverlayPick, Action::ShowPickOverlay { hide_editor: s.hide_editor })
        } else {
            (state, Action::Nothing)
        },
        AppEvent::CaptureActiveWindow => if state == AppState::Idle {
            (state, Action::CaptureActiveWindow { settings: s })
        } else {
            (state, Action::Nothing)
        },
        AppEvent::CaptureFullscreen => if state == AppState::Idle {
            (state, Action::CaptureFullscreen { settings: s })
        } else {
            (state, Action::Nothing)
        },
        AppEvent::RegionSelected(rect) => if state == AppState::OverlayRegion {
            (
                AppState::Idle,
                Action::CaptureRegion {
                    rect,
                    delay_secs: s.delay_secs,
                    capture_cursor: s.capture_cursor,
                    auto_copy: s.auto_copy,
                },
            )
        } else {
            (state, Action::Nothing)
        },
        AppEvent::WindowPicked(hwnd) => if state == AppState::OverlayPick {
            (
                AppState::Idle,
                Action::CaptureWindow {
                    hwnd,
                    delay_secs: s.delay_secs,
                    capture_cursor: s.capture_cursor,
                    auto_copy: s.auto_copy,
                },
            )
        } else {
            (state, Action::Nothing)
        },
        AppEvent::OverlayCancelled => if state != AppState::Idle {
            (AppState::Idle, Action::Nothing)
        } else {
            (state, Action::Nothing)
        },
        AppEvent::EditorSave { .. } => (state, Action::Nothing),
        AppEvent::EditorCancelled => (state, Action::Nothing),
    }
}

/// One step of the capture state machine: the next state and the action for
/// `event`, given the capture settings in force.
pub fn step(state: AppState, event: &AppEvent, settings: CaptureSettings) -> (r: (AppState, Action))
    ensures
        r == spec_step(state, *event, settings),
{
    match event {
        AppEvent::TrayQuit => (state, Action::Quit),
        AppEvent::ShowEditor => (state, Action::ShowEditor),
        AppEvent::CaptureRegion => if state == AppState::Idle {
            (AppState::OverlayRegion, Action::ShowRegionOverlay { hide_editor: settings.hide_editor })
        } else {
            (state, Action::Nothing)
        },
        AppEvent::CapturePickWindow => if state == AppState::Idle {
            (AppState::OverlayPick, Action::ShowPickOverlay { hide_editor: settings.hide_editor })
        } else {
            (state, Action::Nothing)
        },
        AppEvent::CaptureActiveWindow => if state == AppState::Idle {
            (state, Action::CaptureActiveWindow { settings })
        } else {
            (state, Action::Nothing)
        },
        AppEvent::CaptureFullscreen => if state == AppState::Idle {
            (state, Action::CaptureFullscreen { settings })
        } else {
            (state, Action::Nothing)
        },
        AppEvent::RegionSelected(rect) => if state == AppState::OverlayRegion {
            (
                AppState::Idle,
                Action::CaptureRegion {
                    rect: *rect,
                    delay_secs: settings.delay_secs,
                    capture_cursor: settings.capture_cursor,
                    auto_copy: settings.auto_copy,
                },
            )
        } else {
            (state, Action::Nothing)
        },
        AppEvent::WindowPicked(hwnd) => if state == AppState::OverlayPick {
            (
                AppState::Idle,
                Action::CaptureWindow {
                    hwnd: *hwnd,
                    delay_secs: settings.delay_secs,
                    capture_cursor: settings.capture_cursor,
                    auto_copy: settings.auto_copy,
                },
            )
        } else {
            (state, Action::Nothing)
        },
        AppEvent::OverlayCancelled => if state != AppState::Idle {
            (AppState::Idle, Action::Nothing)
        } else {
            (state, Action::Nothing)
        },
        AppEvent::EditorSave { .. } => (state, Action::Nothing),
        AppEvent::EditorCancelled => (state, Action::Nothing),
    }
}

/// Quitting from the tray is honoured in every state.
pub proof fn lemma_quit_always(state: AppState, s: CaptureSettings)
    ensures
        spec_step(state, AppEvent::TrayQuit, s).1 == Action::Quit,
{
}

/// While an overlay is open, no other overlay or capture is started: every
/// event either leaves that state with nothing to do, or is the one that
/// closes the overlay (its result or a cancel), or quits or shows the editor.
pub proof fn lemma_one_overlay_at_a_time(state: AppState, e: AppEvent, s: CaptureSettings)
    requires
        state != AppState::Idle,
    ensures
        ({
            let (next, act) = spec_step(state, e, s);
            match act {
                Action::ShowRegionOverlay { .. } => false,
                Action::ShowPickOverlay { .. } => false,
                Action::CaptureActiveWindow { .. } => false,
                Action::CaptureFullscreen { .. } => false,
                Action::CaptureRegion { .. } => state == AppState::OverlayRegion && next == AppState::Idle,
                Action::CaptureWindow { .. } => state == AppState::OverlayPick && next == AppState::Idle,
                _ => true,
            }
        }),
{
}

/// An open overlay always ends back at rest: its result or a cancel returns
/// the machine to `Idle`.
pub proof fn lemma_overlay_returns_to_idle(rect: Rect, hwnd: isize, s: CaptureSettings)
    ensures
        spec_step(AppState::OverlayRegion, AppEvent::RegionSelected(rect), s).0 == AppState::Idle,
        spec_step(AppState::OverlayRegion, AppEvent::OverlayCancelled, s).0 == AppState::Idle,
        spec_step(AppState::OverlayPick, AppEvent::WindowPicked(hwnd), s).0 == AppState::Idle,
        spec_step(AppState::OverlayPick, AppEvent::OverlayCancelled, s).0 == AppState::Idle,
{
}

/// A capture result that arrives when its overlay is not open is ignored.
pub proof fn lemma_stray_results_ignored(state: AppState, rect: Rect, hwnd: isize, s: CaptureSettings)
    ensures
        state != AppState::OverlayRegion ==> spec_step(state, AppEvent::RegionSelected(rect), s) == (
        state,
        Action::Nothing,
        ),
        state != AppState::OverlayPick ==> spec_step(state, AppEvent::WindowPicked(hwnd), s) == (
        state,
        Action::Nothing,
        ),
{
}

/// Every action that starts an overlay or a capture carries the settings in
/// force when its event was handled, and the capture target named by that
/// event: the active-window and full-screen captures take the settings
/// whole; a selected region and a picked window are captured with the
/// configured delay, cursor and auto-copy; the overlays hide the editor as
/// configured.
pub proof fn lemma_captures_use_settings_in_force(state: AppState, e: AppEvent, s: CaptureSettings)
    ensures
        match spec_step(state, e, s).1 {
            Action::ShowRegionOverlay { hide_editor } => e == AppEvent::CaptureRegion && hide_editor
                == s.hide_editor,
            Action::ShowPickOverlay { hide_editor } => e == AppEvent::CapturePickWindow && hide_editor
                == s.hide_editor,
            Action::CaptureActiveWindow { settings } => e == AppEvent::CaptureActiveWindow && settings
                == s,
            Action::CaptureFullscreen { settings } => e == AppEvent::CaptureFullscreen && settings == s,
            Action::CaptureRegion { rect, delay_secs, capture_cursor, auto_copy } => {
                &&& e == AppEvent::RegionSelected(rect)
                &&& delay_secs == s.delay_secs
                &&& capture_cursor == s.capture_cursor
                &&& auto_copy == s.auto_copy
            },
            Action::CaptureWindow { hwnd, delay_secs, capture_cursor, auto_copy } => {
                &&& e == AppEvent::WindowPicked(hwnd)
                &&& delay_secs == s.delay_secs
                &&& capture_cursor == s.capture_cursor
                &&& auto_copy == s.auto_copy
            },
            _ => true,
        },
{
}

/// Captures happen when asked for: at rest, the active-window and
/// full-screen hotkeys start their capture, and each overlay's result is
/// captured when that overlay is open.
pub proof fn lemma_requested_captures_happen(rect: Rect, hwnd: isize, s: CaptureSettings)
    ensures
        spec_step(AppState::Idle, AppEvent::CaptureActiveWindow, s).1 is CaptureActiveWindow,
        spec_step(AppState::Idle, AppEvent::CaptureFullscreen, s).1 is CaptureFullscreen,
        spec_step(AppState::OverlayRegion, AppEvent::RegionSelected(rect), s).1 is CaptureRegion,
        spec_step(AppState::OverlayPick, AppEvent::WindowPicked(hwnd), s).1 is CaptureWindow,
        spec_step(AppState::Idle, AppEvent::CaptureRegion, s).1 is ShowRegionOverlay,
        spec_step(AppState::Idle, AppEvent::CapturePickWindow, s).1 is ShowPickOverlay,
{
}

} // verus!
