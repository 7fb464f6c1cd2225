use ezshot::capture::screen::ScreenBitmap;
use ezshot::editor::canvas::Canvas;
use ezshot::editor::tool::{Color, Stroke, Tool};
use ezshot::editor::tools::{self, Annotations};
use ezshot::editor::window::{
    button_colors, canvas_point, clamp_scroll, client_xy, color_choice, crop_accepted,
    drag_stroke, first_visible_tab, hex_of_colorref, initial_window_size, max_visible_tabs, palette_color,
    palette_hit, parse_hex_color, scroll_for_code, scroll_within, scrollbars_needed, tab_bar_hit,
    tab_left, timestamp_name, tool_for_button, toolbar_button, toolbar_button_x, toolbar_index,
    visible_extent, wheel_scroll, save_file_name, CloseOutcome, ColorChoice, EditorState, PaletteHit, ReleaseOutcome, SaveTarget, TabHit,
    TooltipAction, BTN_ARROW, BTN_COLOR, BTN_COPY, BTN_CROP, BTN_PEN, BTN_RECT, BTN_SAVE,
    BTN_TEXT, BTN_UNDO, TAB_MENU_BASE, TOOLBAR_BG,
};
use ezshot::geometry::{Point, Rect};

/// A `w x h` bitmap whose byte `i` is `i % 256`.
fn bitmap(w: i32, h: i32) -> ScreenBitmap {
    let n = (w * h * 4) as usize;
    ScreenBitmap { width: w, height: h, data: (0..n).map(|i| (i % 256) as u8).collect() }
}

fn rect(left: i32, top: i32, right: i32, bottom: i32) -> Rect {
    Rect { left, top, right, bottom }
}

// ─── Canvas ────────────────────────────────────────────────────────────────

#[test]
fn new_canvas_defaults() {
    let c = Canvas::new(bitmap(3, 2));
    assert_eq!(c.width, 3);
    assert_eq!(c.height, 2);
    assert!(c.strokes.is_empty());
    assert!(c.current.is_none());
    assert_eq!(c.tool_color, 0x0000_00FF);
    assert_eq!(c.tool_thickness, 3);
    assert_eq!(c.base().data, bitmap(3, 2).data);
}

#[test]
fn undo_after_stroke_removes_it() {
    let mut c = Canvas::new(bitmap(4, 4));
    c.push_stroke(Stroke::Arrow { from: Point { x: 0, y: 0 }, to: Point { x: 3, y: 3 } }, Color(0xFF), 2);
    c.push_stroke(Stroke::Rect { r: rect(1, 1, 2, 2) }, Color(0xFF00), 5);
    assert_eq!(c.strokes.len(), 2);
    assert_eq!(c.strokes[1].1 .0, 0xFF00);
    assert_eq!(c.strokes[1].2, 5);
    c.undo();
    assert_eq!(c.strokes.len(), 1);
    assert!(matches!(c.strokes[0].0, Stroke::Arrow { .. }));
    c.undo();
    assert!(c.strokes.is_empty());
    c.undo();
    assert!(c.strokes.is_empty());
    assert_eq!(c.width, 4);
}

#[test]
fn crop_keeps_pixels_and_moves_strokes() {
    let mut c = Canvas::new(bitmap(4, 4));
    c.push_stroke(Stroke::Rect { r: rect(2, 2, 3, 3) }, Color(0), 3);
    c.push_stroke(Stroke::Pen { points: vec![Point { x: 1, y: 1 }, Point { x: 3, y: 2 }] }, Color(0), 3);
    let area = rect(1, 1, 3, 3);
    assert!(c.can_crop(area));
    c.crop(area);
    assert_eq!((c.width, c.height), (2, 2));
    let mut expected: Vec<u8> = Vec::new();
    expected.extend(20u8..28);
    expected.extend(36u8..44);
    assert_eq!(c.base().data, expected);
    assert_eq!(c.base().width, 2);
    match &c.strokes[0].0 {
        Stroke::Rect { r } => assert_eq!(*r, rect(1, 1, 2, 2)),
        other => panic!("unexpected {:?}", other),
    }
    match &c.strokes[1].0 {
        Stroke::Pen { points } => assert_eq!(points, &vec![Point { x: 0, y: 0 }, Point { x: 2, y: 1 }]),
        other => panic!("unexpected {:?}", other),
    }
    // Undo brings back the full bitmap and the strokes where they were.
    c.undo();
    assert_eq!((c.width, c.height), (4, 4));
    assert_eq!(c.base().data, bitmap(4, 4).data);
    match &c.strokes[0].0 {
        Stroke::Rect { r } => assert_eq!(*r, rect(2, 2, 3, 3)),
        other => panic!("unexpected {:?}", other),
    }
    assert_eq!(c.strokes.len(), 2);
}

#[test]
fn crop_is_clamped_to_canvas() {
    let mut c = Canvas::new(bitmap(4, 3));
    c.crop(rect(-10, 1, 2, 100));
    assert_eq!((c.width, c.height), (2, 2));
    let mut expected: Vec<u8> = Vec::new();
    expected.extend(16u8..24);
    expected.extend(32u8..40);
    assert_eq!(c.base().data, expected);
}

#[test]
fn empty_crop_changes_nothing() {
    let mut c = Canvas::new(bitmap(4, 4));
    c.crop(rect(2, 2, 2, 4));
    assert_eq!((c.width, c.height), (4, 4));
    c.crop(rect(10, 10, 20, 20));
    assert_eq!((c.width, c.height), (4, 4));
    c.undo();
    assert_eq!((c.width, c.height), (4, 4));
    assert_eq!(c.base().data, bitmap(4, 4).data);
}

#[test]
fn can_crop_refuses_overflowing_strokes() {
    let mut c = Canvas::new(bitmap(4, 4));
    c.push_stroke(Stroke::Text { pos: Point { x: i32::MIN, y: 0 }, text: String::from("hi") }, Color(0), 1);
    assert!(!c.can_crop(rect(1, 1, 3, 3)));
    assert!(c.can_crop(rect(0, 0, 3, 3)));
    assert!(c.can_crop(rect(3, 3, 3, 3)));
}

// ─── Strokes ───────────────────────────────────────────────────────────────

#[test]
fn stroke_translation() {
    let s = Stroke::Text { pos: Point { x: 5, y: 6 }, text: String::from("note") };
    assert!(s.can_translate(-5, -6));
    match s.translated(-5, -6) {
        Stroke::Text { pos, text } => {
            assert_eq!(pos, Point { x: 0, y: 0 });
            assert_eq!(text, "note");
        }
        other => panic!("unexpected {:?}", other),
    }
    let mut a = Stroke::Arrow { from: Point { x: 1, y: 2 }, to: Point { x: 3, y: 4 } };
    a.translate(10, -2);
    match a {
        Stroke::Arrow { from, to } => {
            assert_eq!(from, Point { x: 11, y: 0 });
            assert_eq!(to, Point { x: 13, y: 2 });
        }
        other => panic!("unexpected {:?}", other),
    }
    let p = Stroke::Pen { points: vec![Point { x: i32::MAX, y: 0 }] };
    assert!(!p.can_translate(1, 0));
    assert!(p.can_translate(-1, 0));
    match p.duplicate() {
        Stroke::Pen { points } => assert_eq!(points, vec![Point { x: i32::MAX, y: 0 }]),
        other => panic!("unexpected {:?}", other),
    }
}

#[test]
fn drag_strokes_per_tool() {
    let a = Point { x: 10, y: 5 };
    let b = Point { x: 2, y: 9 };
    match drag_stroke(Tool::Arrow, a, b) {
        Some(Stroke::Arrow { from, to }) => assert_eq!((from, to), (a, b)),
        other => panic!("unexpected {:?}", other),
    }
    for t in [Tool::Rect, Tool::Crop] {
        match drag_stroke(t, a, b) {
            Some(Stroke::Rect { r }) => assert_eq!(r, rect(2, 5, 10, 9)),
            other => panic!("unexpected {:?}", other),
        }
    }
    assert!(drag_stroke(Tool::Pen, a, b).is_none());
    assert!(drag_stroke(Tool::Text, a, b).is_none());
    assert!(crop_accepted(rect(0, 0, 5, 5)));
    assert!(!crop_accepted(rect(0, 0, 4, 50)));
}

// ─── Annotation list with undo / redo ──────────────────────────────────────

#[test]
fn annotations_undo_redo() {
    assert_eq!(tools::Tool::default(), tools::Tool::Select);
    let mut a: Annotations<i32> = Annotations::new();
    assert!(!a.can_undo() && !a.can_redo());
    a.push(1);
    a.push(2);
    assert_eq!(a.items, vec![1, 2]);
    a.undo();
    assert_eq!(a.items, vec![1]);
    assert!(a.can_redo());
    a.redo();
    assert_eq!(a.items, vec![1, 2]);
    a.undo();
    a.push(3);
    assert_eq!(a.items, vec![1, 3]);
    assert!(!a.can_redo());
    a.undo();
    a.undo();
    assert!(a.items.is_empty());
    a.undo();
    assert!(a.items.is_empty());
    a.redo();
    assert_eq!(a.items, vec![1]);
}

// ─── Tabs ──────────────────────────────────────────────────────────────────

#[test]
fn editor_tabs_open_and_close() {
    let mut e = EditorState::new(bitmap(2, 2), String::from("D:\\pics"), String::from("20240131235959"));
    assert_eq!(e.tabs.len(), 1);
    assert_eq!(e.active_tab, 0);
    assert_eq!(e.active_tool, Tool::Pen);
    assert_eq!(e.tabs[0].name, "20240131235959");
    e.add_tab(bitmap(3, 1), String::from("b"));
    e.add_tab(bitmap(1, 1), String::from("c"));
    assert_eq!(e.tabs.len(), 3);
    assert_eq!(e.active_tab, 2);
    assert_eq!(e.tab_counter, 3);
    assert_eq!(e.tabs[2].save_dir, "D:\\pics");
    assert_eq!(e.tab_for_menu_command(TAB_MENU_BASE + 1), Some(1));
    assert_eq!(e.tab_for_menu_command(TAB_MENU_BASE + 3), None);
    assert_eq!(e.tab_for_menu_command(5), None);
    e.select_tab(1);
    assert_eq!(e.active_tab, 1);
    // Closing a tab before the active one keeps the index.
    assert_eq!(e.close_tab(0), CloseOutcome::Closed);
    assert_eq!(e.active_tab, 1);
    assert_eq!(e.tabs[1].name, "c");
    // Closing the active last tab moves to the new last tab.
    assert_eq!(e.close_tab(1), CloseOutcome::Closed);
    assert_eq!(e.active_tab, 0);
    assert_eq!(e.tabs[0].name, "b");
    assert_eq!(e.close_tab(5), CloseOutcome::Ignored);
    assert_eq!(e.close_tab(0), CloseOutcome::Emptied);
    assert!(e.tabs.is_empty());
}

#[test]
fn tooltip_timer() {
    let mut e = EditorState::new(bitmap(1, 1), String::new(), String::from("t"));
    assert_eq!(e.hover_tick(2), TooltipAction::Hide);
    for _ in 0..4 {
        assert_eq!(e.hover_tick(2), TooltipAction::Keep);
    }
    assert_eq!(e.hover_tick(2), TooltipAction::Show(2));
    assert_eq!(e.hover_tick(2), TooltipAction::Keep);
    assert_eq!(e.hover_tick(-1), TooltipAction::Hide);
    assert_eq!(e.hover_tick(-1), TooltipAction::Keep);
}

#[test]
fn timestamp_names() {
    assert_eq!(timestamp_name(2024, 1, 31, 23, 59, 59), "20240131235959");
    assert_eq!(timestamp_name(2025, 7, 4, 0, 5, 9), "20250704000509");
}

// ─── Message parameters and colours ────────────────────────────────────────

#[test]
fn client_xy_is_signed() {
    assert_eq!(client_xy(0x0014_000A), (10, 20));
    assert_eq!(client_xy(0xFFFF_FFFE), (-2, -1));
    assert_eq!(client_xy(0x8000_7FFF), (32767, -32768));
    assert_eq!(client_xy(0x5_0003_0004), (4, 3));
}

#[test]
fn hex_colour_text() {
    assert_eq!(hex_of_colorref(0x00CC_6633), "3366CC");
    assert_eq!(hex_of_colorref(0), "000000");
    assert_eq!(parse_hex_color("3366CC"), Some(0x00CC_6633));
    assert_eq!(parse_hex_color("  #ff0000\0"), Some(0x0000_00FF));
    assert_eq!(parse_hex_color("#00ff00"), Some(0x0000_FF00));
    assert_eq!(parse_hex_color("##0000aB"), Some(0x00AB_0000));
    assert_eq!(parse_hex_color("#00ff80"), Some(0x0080_FF00));
    assert_eq!(parse_hex_color("+f+f+f"), None);
    assert_eq!(parse_hex_color("+fff00"), None);
    assert_eq!(parse_hex_color("12345"), None);
    assert_eq!(parse_hex_color("1234567"), None);
    assert_eq!(parse_hex_color("12 456"), None);
    assert_eq!(parse_hex_color("zz0000"), None);
    assert_eq!(parse_hex_color(""), None);
}

#[test]
fn hex_colour_round_trip() {
    for c in [0u32, 0x00FF_FFFF, 0x0012_3456, 0x00AB_CDEF, 0x0000_80FF] {
        assert_eq!(parse_hex_color(&hex_of_colorref(c)), Some(c));
    }
}

// ─── Tab bar, scrolling, window size ───────────────────────────────────────

#[test]
fn tab_bar_hits() {
    assert_eq!(max_visible_tabs(100), 1);
    assert_eq!(max_visible_tabs(22 + 130 * 3 + 5), 3);
    // Three tabs in a wide bar.
    assert_eq!(tab_bar_hit(5, 1000, 3, 0), TabHit::Select(0));
    assert_eq!(tab_bar_hit(130 + 111, 1000, 3, 0), TabHit::Select(1));
    assert_eq!(tab_bar_hit(130 + 112, 1000, 3, 0), TabHit::Close(1));
    assert_eq!(tab_bar_hit(3 * 130 + 1, 1000, 3, 0), TabHit::Nothing);
    // Five tabs in a bar that shows two: the drop-down takes the right edge.
    let w = 22 + 130 * 2;
    assert_eq!(tab_bar_hit(w - 1, w, 5, 0), TabHit::DropDown);
    assert_eq!(tab_bar_hit(w - 22, w, 5, 0), TabHit::DropDown);
    assert_eq!(tab_bar_hit(140, w, 5, 0), TabHit::Select(1));
    assert_eq!(tab_bar_hit(-5, w, 5, 0), TabHit::Select(0));
    assert_eq!(tab_bar_hit(-130, w, 5, 0), TabHit::Nothing);
    assert_eq!(tab_left(3), 390);
}

#[test]
fn tab_bar_scrolls_to_the_active_tab() {
    // Two tabs fit; five are open.
    assert_eq!(first_visible_tab(5, 2, 0), 0);
    assert_eq!(first_visible_tab(5, 2, 1), 0);
    assert_eq!(first_visible_tab(5, 2, 2), 1);
    assert_eq!(first_visible_tab(5, 2, 4), 3);
    // Everything fits: no scrolling.
    assert_eq!(first_visible_tab(3, 7, 2), 0);
    // The newest tab, just opened and active, is always shown.
    for n in 1..20usize {
        for visible in 1..6usize {
            let first = first_visible_tab(n, visible, n - 1);
            assert!(first <= n - 1 && n - 1 < first + visible);
        }
    }
    // Clicks land on the tabs shown from `first` on.
    let w = 22 + 130 * 2;
    assert_eq!(tab_bar_hit(5, w, 5, 3), TabHit::Select(3));
    assert_eq!(tab_bar_hit(140, w, 5, 3), TabHit::Select(4));
    assert_eq!(tab_bar_hit(130 + 120, w, 5, 3), TabHit::Close(4));
    assert_eq!(tab_bar_hit(261, w, 5, 3), TabHit::DropDown);
    assert_eq!(tab_bar_hit(130 + 112, 1000, 5, 3), TabHit::Close(4));
    assert_eq!(tab_bar_hit(3 * 130 + 1, 1000, 5, 3), TabHit::Nothing);
}

#[test]
fn scrolling_stays_in_canvas() {
    assert_eq!(clamp_scroll(-5, 1000, 400), 0);
    assert_eq!(clamp_scroll(700, 1000, 400), 600);
    assert_eq!(clamp_scroll(250, 1000, 400), 250);
    assert_eq!(clamp_scroll(50, 300, 400), 0);
    assert_eq!(scroll_for_code(0, 10, 400, 0, 1000, 400), 0);
    assert_eq!(scroll_for_code(1, 10, 400, 0, 1000, 400), 30);
    assert_eq!(scroll_for_code(2, 500, 400, 0, 1000, 400), 100);
    assert_eq!(scroll_for_code(3, 500, 400, 0, 1000, 400), 600);
    assert_eq!(scroll_for_code(5, 500, 400, 123, 1000, 400), 123);
    assert_eq!(scroll_for_code(8, 77, 400, 123, 1000, 400), 77);
    assert_eq!(wheel_scroll(120, 100, 1000, 400), 40);
    assert_eq!(wheel_scroll(-120, 100, 1000, 400), 160);
    assert_eq!(wheel_scroll(-120, 590, 1000, 400), 600);
    assert_eq!(scroll_within(50, 20), 19);
    assert_eq!(scroll_within(5, 20), 5);
    assert_eq!(scroll_within(5, 0), 0);
}

#[test]
fn canvas_area_geometry() {
    assert_eq!(scrollbars_needed(800, 700, 700, 700), (true, true));
    assert_eq!(scrollbars_needed(800, 600, 700, 700), (true, false));
    assert_eq!(scrollbars_needed(600, 600, 700, 676), (false, false));
    assert_eq!(scrollbars_needed(600, 601, 700, 676), (false, true));
    assert_eq!(visible_extent(1000, 700, 400), 300);
    assert_eq!(visible_extent(1000, 100, 400), 400);
    assert_eq!(visible_extent(100, 200, 400), 0);
    assert_eq!(canvas_point(10, 76, 5, 7), Some(Point { x: 15, y: 7 }));
    assert_eq!(canvas_point(10, 20, 0, 0), Some(Point { x: 10, y: -56 }));
    assert_eq!(canvas_point(i32::MAX, 100, 1, 0), None);
    assert_eq!(initial_window_size(100, 50, 1920, 1080), (420, 196));
    assert_eq!(initial_window_size(1000, 500, 1920, 1080), (1020, 621));
    assert_eq!(initial_window_size(3000, 3000, 1920, 1080), (1728, 972));
}

// ─── Toolbar and palette ───────────────────────────────────────────────────

#[test]
fn toolbar_layout() {
    let ids = [BTN_PEN, BTN_ARROW, BTN_RECT, BTN_TEXT, BTN_CROP, BTN_COLOR, BTN_COPY, BTN_SAVE, BTN_UNDO];
    for (i, id) in ids.iter().enumerate() {
        assert_eq!(toolbar_button(i), *id);
        assert_eq!(toolbar_index(*id), i as i32);
    }
    assert_eq!(toolbar_index(99), -1);
    assert_eq!(toolbar_button_x(0), 4);
    assert_eq!(toolbar_button_x(8), 4 + 8 * 44);
    assert_eq!(tool_for_button(BTN_CROP), Some(Tool::Crop));
    assert_eq!(tool_for_button(BTN_SAVE), None);
    assert_eq!(button_colors(BTN_PEN, false, Tool::Pen), (0x00D4_7800, 0x00FF_FFFF));
    assert_eq!(button_colors(BTN_PEN, true, Tool::Arrow), (0x0022_2222, 0x00FF_FFFF));
    assert_eq!(button_colors(BTN_SAVE, false, Tool::Pen), (TOOLBAR_BG, 0x0040_4040));
}

#[test]
fn palette_choices() {
    assert_eq!(palette_color(0), 0);
    assert_eq!(palette_color(4), 0x0000_00FF);
    assert_eq!(palette_color(11), 0x00FF_00FF);
    assert_eq!(palette_hit(-1, 5), PaletteHit::Outside);
    assert_eq!(palette_hit(186, 5), PaletteHit::Outside);
    assert_eq!(palette_hit(5, 5), PaletteHit::Swatch(0));
    assert_eq!(palette_hit(4 + 30 + 1, 4 + 30 + 1), PaletteHit::Swatch(7));
    assert_eq!(palette_hit(4 + 5 * 30, 4), PaletteHit::Swatch(5));
    assert_eq!(palette_hit(4 + 28, 10), PaletteHit::Nothing);
    assert_eq!(palette_hit(2, 2), PaletteHit::Nothing);
    assert_eq!(palette_hit(50, 70), PaletteHit::Custom);
    assert_eq!(color_choice(PaletteHit::Swatch(7)), ColorChoice::Color(0x0000_C800));
    assert_eq!(color_choice(PaletteHit::Swatch(12)), ColorChoice::Cancelled);
    assert_eq!(color_choice(PaletteHit::Custom), ColorChoice::Custom);
    assert_eq!(color_choice(PaletteHit::Outside), ColorChoice::Cancelled);
    assert_eq!(color_choice(PaletteHit::Nothing), ColorChoice::Cancelled);
}

#[test]
fn new_tabs_get_fresh_canvases() {
    let mut e = EditorState::new(bitmap(2, 2), String::from("D:\\pics"), String::from("a"));
    e.set_active_color(0x0000_FF00);
    e.add_tab(bitmap(3, 1), String::from("b"));
    let c = &e.tabs[1].canvas;
    assert_eq!((c.width, c.height), (3, 1));
    assert_eq!(c.tool_color, 0x0000_00FF);
    assert_eq!(c.tool_thickness, 3);
    assert!(c.current.is_none());
    assert!(c.strokes.is_empty());
    assert_eq!(e.tabs[0].canvas.tool_color, 0x0000_FF00);
}

#[test]
fn window_title_follows_the_active_tab() {
    let mut e = EditorState::new(bitmap(1, 1), String::new(), String::from("20240131235959"));
    assert_eq!(e.title(), "ezshot-20240131235959");
    e.close_tab(0);
    assert_eq!(e.title(), "ezshot");
}

#[test]
fn save_dialog_proposes_a_stamped_name() {
    assert_eq!(save_file_name(1_700_000_000), "srcshot_1700000000.png");
    assert_eq!(save_file_name(0), "srcshot_0.png");
    assert_eq!(save_file_name(u64::MAX), "srcshot_18446744073709551615.png");
}

#[test]
fn pen_drag_commits_a_stroke() {
    let mut e = EditorState::new(bitmap(20, 20), String::new(), String::from("t"));
    assert_eq!(e.release(), ReleaseOutcome::Ignored);
    assert!(!e.press(Point { x: 1, y: 2 }));
    assert!(e.dragging);
    e.drag_to(Point { x: 3, y: 4 });
    e.drag_to(Point { x: 5, y: 6 });
    assert_eq!(e.release(), ReleaseOutcome::Committed);
    assert!(!e.dragging);
    let c = &e.tabs[0].canvas;
    assert!(c.current.is_none());
    assert_eq!(c.strokes.len(), 1);
    match &c.strokes[0] {
        (Stroke::Pen { points }, Color(col), th) => {
            assert_eq!(points, &vec![Point { x: 1, y: 2 }, Point { x: 3, y: 4 }, Point { x: 5, y: 6 }]);
            assert_eq!((*col, *th), (0x0000_00FF, 3));
        }
        _ => panic!("expected a pen stroke"),
    }
}

#[test]
fn rectangle_drag_is_normalised() {
    let mut e = EditorState::new(bitmap(20, 20), String::new(), String::from("t"));
    e.active_tool = Tool::Rect;
    assert!(!e.press(Point { x: 9, y: 8 }));
    assert!(e.tabs[0].canvas.current.is_none());
    e.drag_to(Point { x: 2, y: 12 });
    assert_eq!(e.release(), ReleaseOutcome::Committed);
    match &e.tabs[0].canvas.strokes[0].0 {
        Stroke::Rect { r } => assert_eq!(*r, rect(2, 8, 9, 12)),
        _ => panic!("expected a rectangle"),
    }
}

#[test]
fn text_goes_through_the_undo_history() {
    let mut e = EditorState::new(bitmap(20, 20), String::new(), String::from("t"));
    e.active_tool = Tool::Text;
    assert!(e.press(Point { x: 4, y: 4 }));
    assert!(!e.dragging);
    assert!(!e.place_text(Point { x: 4, y: 4 }, String::new()));
    assert!(e.place_text(Point { x: 4, y: 4 }, String::from("hi")));
    e.active_tool = Tool::Arrow;
    e.press(Point { x: 0, y: 0 });
    e.drag_to(Point { x: 7, y: 7 });
    assert_eq!(e.release(), ReleaseOutcome::Committed);
    assert_eq!(e.tabs[0].canvas.strokes.len(), 2);
    // Undo removes the last stroke (the arrow), then the text.
    e.undo_active();
    assert_eq!(e.tabs[0].canvas.strokes.len(), 1);
    assert!(matches!(&e.tabs[0].canvas.strokes[0].0, Stroke::Text { text, .. } if text == "hi"));
    e.undo_active();
    assert!(e.tabs[0].canvas.strokes.is_empty());
}

#[test]
fn crop_drag_crops_and_undo_restores() {
    let mut e = EditorState::new(bitmap(20, 10), String::new(), String::from("t"));
    e.tabs[0].scroll_x = 15;
    e.tabs[0].scroll_y = 7;
    e.press(Point { x: 1, y: 1 });
    e.drag_to(Point { x: 2, y: 2 });
    e.release();
    e.active_tool = Tool::Crop;
    // A drag of 4 pixels or less does not crop.
    e.press(Point { x: 2, y: 2 });
    e.drag_to(Point { x: 6, y: 9 });
    assert_eq!(e.release(), ReleaseOutcome::CropFinished { cropped: false });
    assert_eq!(e.tabs[0].canvas.width, 20);
    assert_eq!(e.tabs[0].scroll_x, 15);
    e.press(Point { x: 12, y: 8 });
    e.drag_to(Point { x: 2, y: 1 });
    assert_eq!(e.release(), ReleaseOutcome::CropFinished { cropped: true });
    let c = &e.tabs[0].canvas;
    assert_eq!((c.width, c.height), (10, 7));
    assert!(c.current.is_none());
    assert_eq!((e.tabs[0].scroll_x, e.tabs[0].scroll_y), (0, 0));
    match &c.strokes[0].0 {
        Stroke::Pen { points } => assert_eq!(points, &vec![Point { x: -1, y: 0 }, Point { x: 0, y: 1 }]),
        _ => panic!("expected a pen stroke"),
    }
    e.tabs[0].scroll_x = 9;
    e.undo_active();
    let c = &e.tabs[0].canvas;
    assert_eq!((c.width, c.height), (20, 10));
    assert_eq!(c.base().data, bitmap(20, 10).data);
    match &c.strokes[0].0 {
        Stroke::Pen { points } => assert_eq!(points, &vec![Point { x: 1, y: 1 }, Point { x: 2, y: 2 }]),
        _ => panic!("expected a pen stroke"),
    }
    assert_eq!(e.tabs[0].scroll_x, 9);
    // Undoing the stroke too empties the history.
    e.undo_active();
    assert!(e.tabs[0].canvas.strokes.is_empty());
}

#[test]
fn first_save_asks_and_later_saves_overwrite() {
    let mut e = EditorState::new(bitmap(1, 1), String::from("C:\\a"), String::from("x"));
    e.add_tab(bitmap(1, 1), String::from("y"));
    assert!(matches!(e.save_target(), SaveTarget::Ask));
    e.finish_save(String::from("D:\\b\\y.png"), Some(String::from("D:\\b")));
    assert_eq!(e.tabs.len(), 2);
    assert_eq!(e.active_tab, 1);
    assert!(e.tabs[1].result_sent);
    assert_eq!(e.tabs[1].save_dir, "D:\\b");
    assert!(matches!(e.save_target(), SaveTarget::Overwrite(p) if p == "D:\\b\\y.png"));
    // The other tab still asks.
    e.select_tab(0);
    assert!(matches!(e.save_target(), SaveTarget::Ask));
    assert_eq!(e.tabs[0].save_dir, "C:\\a");
    e.close_tab(0);
    e.close_tab(0);
    assert!(matches!(e.save_target(), SaveTarget::NoTab));
}
