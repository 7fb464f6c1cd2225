use ezshot::capture::capturer::{capture_dimensions, region_rect, virtual_screen_rect};
use ezshot::capture::overlay::{
    capture_border_pixels, countdown_steps, escape_hook, escape_pressed, is_desktop_class,
    is_pickable_app_window, pick_mouse_hook, pick_result, selection_frame, spotlight_pixels,
    first_window_at, usable_frame, WindowRecord,
    window_hit, HookDecision, RegionState, BORDER_ARGB, CLEAR_ARGB, HC_ACTION, HOLE_ARGB,
    MASK_ARGB, VK_ESCAPE, WM_KEYDOWN, WM_LBUTTONDOWN, WM_LBUTTONUP, WM_SYSKEYDOWN,
    WS_EX_APPWINDOW, WS_EX_TOOLWINDOW, WS_SYSMENU,
};
use ezshot::capture::screen::{
    active_window_rect, capture_extent, cursor_origin, fullscreen_rect, window_rect, ScreenBitmap,
    ScreenError,
};
use ezshot::event::AppEvent;
use ezshot::geometry::{clamp_i32, normalise, Point, Rect};
use ezshot::raster::fill_rows;

fn rect(left: i32, top: i32, right: i32, bottom: i32) -> Rect {
    Rect { left, top, right, bottom }
}

// ─── Geometry ──────────────────────────────────────────────────────────────

#[test]
fn normalise_orders_corners() {
    assert_eq!(normalise(10, 20, 5, 40), rect(5, 20, 10, 40));
    assert_eq!(normalise(-3, 8, 4, -9), rect(-3, -9, 4, 8));
    assert_eq!(normalise(1, 1, 1, 1), rect(1, 1, 1, 1));
}

#[test]
fn rect_tests_and_clamp() {
    let r = rect(0, 0, 10, 5);
    assert!(r.is_nonempty());
    assert!(!rect(3, 0, 3, 5).is_nonempty());
    assert!(r.contains(Point { x: 0, y: 0 }));
    assert!(r.contains(Point { x: 9, y: 4 }));
    assert!(!r.contains(Point { x: 10, y: 4 }));
    assert!(!r.contains(Point { x: 2, y: -1 }));
    assert_eq!(clamp_i32(-5, 0, 10), 0);
    assert_eq!(clamp_i32(15, 0, 10), 10);
    assert_eq!(clamp_i32(7, 0, 10), 7);
}

// ─── Screen capture geometry ───────────────────────────────────────────────

#[test]
fn capture_extent_and_errors() {
    assert_eq!(capture_extent(rect(10, 20, 110, 70)), Ok((100, 50)));
    assert_eq!(capture_extent(rect(10, 20, 10, 70)), Err(ScreenError::EmptyRect));
    assert_eq!(capture_extent(rect(10, 20, 5, 70)), Err(ScreenError::EmptyRect));
}

#[test]
fn cursor_origin_subtracts_hotspot() {
    let p = cursor_origin(Point { x: 500, y: 300 }, rect(100, 50, 900, 650), 4, 2);
    assert_eq!(p, Point { x: 396, y: 248 });
    let p = cursor_origin(Point { x: 0, y: 0 }, rect(100, 50, 900, 650), 0, 0);
    assert_eq!(p, Point { x: -100, y: -50 });
}

#[test]
fn fullscreen_rect_of_virtual_screen() {
    assert_eq!(fullscreen_rect(-1920, 0, 3840, 1080), Ok(rect(-1920, 0, 1920, 1080)));
    assert_eq!(fullscreen_rect(0, 0, 0, 1080), Err(ScreenError::EmptyVirtualScreen));
}

#[test]
fn window_rect_prefers_dwm_frame() {
    let frame = rect(8, 0, 808, 600);
    let window = rect(0, 0, 816, 608);
    assert_eq!(window_rect(Some(frame), Some(window)), Ok(frame));
    assert_eq!(window_rect(Some(rect(0, 0, 0, 0)), Some(window)), Ok(window));
    assert_eq!(window_rect(None, Some(window)), Ok(window));
    assert_eq!(window_rect(None, None), Err(ScreenError::WindowRectFailed));
    assert_eq!(active_window_rect(0, Some(frame), Some(window)), Err(ScreenError::NoForegroundWindow));
    assert_eq!(active_window_rect(0x42, Some(frame), Some(window)), Ok(frame));
}

#[test]
fn capturer_geometry() {
    assert_eq!(virtual_screen_rect(-1280, -200, 3200, 1400), rect(-1280, -200, 1920, 1200));
    assert_eq!(region_rect((1, 2, 3, 4)), rect(1, 2, 3, 4));
    assert_eq!(capture_dimensions(rect(0, 0, 640, 480)), Ok((640, 480)));
    assert_eq!(capture_dimensions(rect(5, 5, 5, 10)), Err(String::from("empty capture region")));
    assert_eq!(capture_dimensions(rect(10, 0, 0, 1)), Ok((u32::MAX - 9, 1)));
}

#[test]
fn bitmap_duplicate_copies_bytes() {
    let b = ScreenBitmap { width: 1, height: 2, data: vec![1, 2, 3, 4, 5, 6, 7, 8] };
    let c = b.duplicate();
    assert_eq!(c.width, 1);
    assert_eq!(c.height, 2);
    assert_eq!(c.data, b.data);
}

// ─── Region overlay ────────────────────────────────────────────────────────

#[test]
fn region_drag_selects_rectangle() {
    let mut s = RegionState::new();
    assert!(s.selection().is_none());
    assert!(!s.on_mouse_move(5, 5));
    s.on_button_down(100, 200);
    assert!(s.on_mouse_move(40, 260));
    assert_eq!(s.selection(), Some(rect(40, 200, 100, 260)));
    match s.on_button_up() {
        Some(AppEvent::RegionSelected(r)) => assert_eq!(r, rect(40, 200, 100, 260)),
        other => panic!("unexpected {:?}", other),
    }
    assert!(!s.dragging);
    assert!(s.on_button_up().is_none());
}

#[test]
fn tiny_region_drag_cancels() {
    let mut s = RegionState::new();
    s.on_button_down(10, 10);
    s.on_mouse_move(14, 50);
    assert!(matches!(s.on_button_up(), Some(AppEvent::OverlayCancelled)));
    let mut s = RegionState::new();
    s.on_button_down(10, 10);
    s.on_mouse_move(15, 15);
    assert!(matches!(s.on_button_up(), Some(AppEvent::RegionSelected(_))));
}

// ─── Window pick ───────────────────────────────────────────────────────────

#[test]
fn pickable_windows() {
    assert!(is_pickable_app_window(WS_EX_APPWINDOW, false, false, true, 0, 0));
    assert!(is_pickable_app_window(0, false, false, true, 5, WS_SYSMENU));
    assert!(!is_pickable_app_window(0, false, false, true, 0, WS_SYSMENU));
    assert!(!is_pickable_app_window(0, false, false, true, 5, 0));
    assert!(!is_pickable_app_window(WS_EX_TOOLWINDOW | WS_EX_APPWINDOW, false, false, true, 5, WS_SYSMENU));
    assert!(!is_pickable_app_window(WS_EX_APPWINDOW, true, false, true, 5, WS_SYSMENU));
    assert!(!is_pickable_app_window(WS_EX_APPWINDOW, false, true, true, 5, WS_SYSMENU));
    assert!(!is_pickable_app_window(WS_EX_APPWINDOW, false, false, false, 5, WS_SYSMENU));
}

#[test]
fn desktop_classes_are_recognised() {
    let progman: Vec<u16> = "Progman".encode_utf16().collect();
    let worker: Vec<u16> = "WorkerW".encode_utf16().collect();
    let notepad: Vec<u16> = "Notepad".encode_utf16().collect();
    let short: Vec<u16> = "Progma".encode_utf16().collect();
    assert!(is_desktop_class(&progman));
    assert!(is_desktop_class(&worker));
    assert!(!is_desktop_class(&notepad));
    assert!(!is_desktop_class(&short));
    assert!(!is_desktop_class(&[]));
}

#[test]
fn frames_hits_and_pick_results() {
    let frame = rect(8, 0, 808, 600);
    let window = rect(0, 0, 816, 608);
    assert_eq!(usable_frame(Some(frame), Some(window)), Some(frame));
    assert_eq!(usable_frame(Some(rect(1, 1, 1, 1)), Some(window)), Some(window));
    assert_eq!(usable_frame(None, Some(rect(0, 0, 0, 10))), None);
    assert_eq!(usable_frame(None, None), None);
    assert!(window_hit(Some(frame), Point { x: 8, y: 0 }));
    assert!(!window_hit(Some(frame), Point { x: 7, y: 0 }));
    assert!(!window_hit(None, Point { x: 8, y: 0 }));
    assert!(matches!(pick_result(0x99), AppEvent::WindowPicked(0x99)));
    assert!(matches!(pick_result(0), AppEvent::OverlayCancelled));
}

#[test]
fn hook_decisions() {
    assert_eq!(escape_hook(HC_ACTION, WM_KEYDOWN, VK_ESCAPE, 7), HookDecision::SwallowAndNotify(7));
    assert_eq!(escape_hook(HC_ACTION, WM_SYSKEYDOWN, VK_ESCAPE, 7), HookDecision::SwallowAndNotify(7));
    assert_eq!(escape_hook(HC_ACTION, WM_KEYDOWN, 0x41, 7), HookDecision::PassOn);
    assert_eq!(escape_hook(HC_ACTION, WM_KEYDOWN, VK_ESCAPE, 0), HookDecision::PassOn);
    assert_eq!(escape_hook(-1, WM_KEYDOWN, VK_ESCAPE, 7), HookDecision::PassOn);
    assert_eq!(pick_mouse_hook(HC_ACTION, WM_LBUTTONDOWN, 7), HookDecision::Swallow);
    assert_eq!(pick_mouse_hook(HC_ACTION, WM_LBUTTONUP, 7), HookDecision::SwallowAndNotify(7));
    assert_eq!(pick_mouse_hook(HC_ACTION, 0x0200, 7), HookDecision::PassOn);
    assert_eq!(pick_mouse_hook(HC_ACTION, WM_LBUTTONUP, 0), HookDecision::PassOn);
    assert!(escape_pressed(i16::MIN));
    assert!(escape_pressed(-32767));
    assert!(!escape_pressed(1));
    assert!(!escape_pressed(0));
}

#[test]
fn countdown_counts_down() {
    assert_eq!(countdown_steps(3), vec![3, 2, 1]);
    assert_eq!(countdown_steps(0), Vec::<u32>::new());
    assert_eq!(countdown_steps(1), vec![1]);
}

// ─── Overlay pixels ────────────────────────────────────────────────────────

#[test]
fn fill_rows_paints_segments() {
    let mut px = vec![0u32; 12];
    fill_rows(&mut px, 1, 3, 4, 1, 3, 9);
    assert_eq!(px, vec![0, 0, 0, 0, 0, 9, 9, 0, 0, 9, 9, 0]);
}

#[test]
fn spotlight_without_hover_is_all_mask() {
    let px = spotlight_pixels(0, 0, 5, 3, None).unwrap();
    assert_eq!(px.len(), 15);
    assert!(px.iter().all(|&p| p == MASK_ARGB));
    assert!(spotlight_pixels(0, 0, 0, 3, None).is_none());
    assert!(spotlight_pixels(0, 0, 5, -1, None).is_none());
}

#[test]
fn spotlight_frames_the_hovered_window() {
    // A 12x12 virtual screen at (-100, -50) with the window covering it all.
    let px = spotlight_pixels(-100, -50, 12, 12, Some(rect(-100, -50, -88, -38))).unwrap();
    assert_eq!(px.len(), 144);
    for row in 0..12usize {
        for col in 0..12usize {
            let inner = (4..8).contains(&row) && (4..8).contains(&col);
            let expected = if inner { HOLE_ARGB } else { BORDER_ARGB };
            assert_eq!(px[row * 12 + col], expected, "row {} col {}", row, col);
        }
    }
}

#[test]
fn spotlight_clips_window_to_screen() {
    // A 10x6 screen; the window sticks out on the left and bottom.
    let px = spotlight_pixels(0, 0, 10, 6, Some(rect(-20, 1, 9, 40))).unwrap();
    // Outside the window (row 0, and column 9) stays masked.
    for col in 0..10usize {
        assert_eq!(px[col], MASK_ARGB);
    }
    for row in 0..6usize {
        assert_eq!(px[row * 10 + 9], MASK_ARGB);
    }
    // Clamped window [0, 9) x [1, 6): frame rows 1..5 at the top and 2..6 at
    // the bottom cover every row, so all of it is frame.
    for row in 1..6usize {
        for col in 0..9usize {
            assert_eq!(px[row * 10 + col], BORDER_ARGB, "row {} col {}", row, col);
        }
    }
}

#[test]
fn capture_border_frames_area() {
    let px = capture_border_pixels(0, 0, 12, 12, rect(0, 0, 12, 12)).unwrap();
    for row in 0..12usize {
        for col in 0..12usize {
            let inner = (4..8).contains(&row) && (4..8).contains(&col);
            let expected = if inner { CLEAR_ARGB } else { BORDER_ARGB };
            assert_eq!(px[row * 12 + col], expected, "row {} col {}", row, col);
        }
    }
}

#[test]
fn capture_border_outside_area_is_clear() {
    let px = capture_border_pixels(10, 10, 20, 20, rect(15, 15, 25, 25)).unwrap();
    assert_eq!(px.len(), 400);
    // Overlay coordinates of the area: [5, 15) x [5, 15).
    assert_eq!(px[0], CLEAR_ARGB);
    assert_eq!(px[5 * 20 + 5], BORDER_ARGB);
    assert_eq!(px[5 * 20 + 14], BORDER_ARGB);
    assert_eq!(px[5 * 20 + 15], CLEAR_ARGB);
    assert_eq!(px[10 * 20 + 10], CLEAR_ARGB);
    assert_eq!(px[10 * 20 + 8], BORDER_ARGB);
    assert_eq!(px[10 * 20 + 9], CLEAR_ARGB);
    assert_eq!(px[14 * 20 + 10], BORDER_ARGB);
    // An area off screen leaves everything clear; an empty screen gives nothing.
    let px = capture_border_pixels(0, 0, 8, 8, rect(100, 100, 200, 200)).unwrap();
    assert!(px.iter().all(|&p| p == CLEAR_ARGB));
    assert!(capture_border_pixels(0, 0, 0, 0, rect(0, 0, 1, 1)).is_none());
}

#[test]
fn selection_frame_rectangles() {
    // Selection (110, 60)-(150, 100) on an overlay at (100, 50).
    let (white, black) = selection_frame(rect(110, 60, 150, 100), 100, 50);
    assert_eq!(white, [rect(10, 10, 50, 13), rect(10, 47, 50, 50), rect(10, 10, 13, 50), rect(47, 10, 50, 50)]);
    assert_eq!(black, [rect(9, 9, 51, 10), rect(9, 50, 51, 51), rect(9, 9, 10, 51), rect(50, 9, 51, 51)]);
    // A thin selection at the overlay's corner: bars stop at the far edge,
    // black lines start at the overlay edge.
    let (white, black) = selection_frame(rect(0, 0, 2, 10), 0, 0);
    assert_eq!(white, [rect(0, 0, 2, 3), rect(0, 7, 2, 10), rect(0, 0, 2, 10), rect(0, 0, 2, 10)]);
    assert_eq!(black, [rect(0, 0, 3, 0), rect(0, 10, 3, 11), rect(0, 0, 0, 11), rect(2, 0, 3, 11)]);
}

#[test]
fn white_bars_cover_the_inner_band() {
    let (white, _) = selection_frame(rect(5, 5, 20, 15), 0, 0);
    for y in 0..25 {
        for x in 0..25 {
            let p = Point { x, y };
            let painted = white.iter().any(|r| r.contains(p));
            let inside = (5..20).contains(&x) && (5..15).contains(&y);
            let band = x < 8 || x >= 17 || y < 8 || y >= 12;
            assert_eq!(painted, inside && band, "x {} y {}", x, y);
        }
    }
}

#[test]
fn pick_chooses_the_top_most_candidate() {
    let frame = Some(Rect { left: 0, top: 0, right: 100, bottom: 100 });
    let rec = |hwnd: isize, visible: bool, desktop: bool, pickable: bool, frame: Option<Rect>| WindowRecord {
        hwnd,
        visible,
        desktop,
        pickable,
        frame,
    };
    let windows = vec![
        rec(7, true, false, true, frame),   // the overlay itself
        rec(8, false, false, true, frame),  // hidden
        rec(9, true, true, true, frame),    // the desktop
        rec(10, true, false, false, frame), // a tool window
        rec(11, true, false, true, Some(Rect { left: 200, top: 0, right: 300, bottom: 50 })),
        rec(12, true, false, true, frame),
        rec(13, true, false, true, frame),
    ];
    assert_eq!(first_window_at(&windows, 7, Point { x: 5, y: 5 }), Some(5));
    assert_eq!(first_window_at(&windows, 7, Point { x: 250, y: 10 }), Some(4));
    assert_eq!(first_window_at(&windows, 7, Point { x: 500, y: 500 }), None);
    assert_eq!(first_window_at(&Vec::new(), 7, Point { x: 5, y: 5 }), None);
}
