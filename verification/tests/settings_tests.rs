use ezshot::app::{step, Action, AppState, CaptureSettings};
use ezshot::app_state::{CaptureMode, MainCmd};
use ezshot::config::{saved_dir_text, Config};
use ezshot::settings::{apply_settings_text, settings_text};
use ezshot::event::AppEvent;
use ezshot::geometry::Rect;
use ezshot::hotkey::{
    handle_wm_hotkey, hotkey_key, HOTKEY_MODIFIERS, ID_HOTKEY_ACTIVE, ID_HOTKEY_FULLSCREEN,
    ID_HOTKEY_PICK, ID_HOTKEY_REGION,
};
use ezshot::i18n::{self, Lang, EN, ZH};
use ezshot::text::{encode_utf16_nul, parse_u32, push_decimal, push_padded_decimal, skip_trailing_nuls, str_equals};
use ezshot::theme::{self, AppMode, Theme, DARK_U, LIGHT_U};
use ezshot::tray::{
    apply_command, custom_delay_label, delay_item_checked, is_preset_delay, lang_menu_id,
    parse_delay, theme_menu_id, tray_click, TrayAction, TrayClick, IDM_ACTIVE, IDM_AUTO_COPY,
    IDM_CURSOR, IDM_DELAY_0, IDM_DELAY_1, IDM_DELAY_2, IDM_DELAY_3, IDM_DELAY_5, IDM_DELAY_CUSTOM,
    IDM_HIDE_ON_CAPTURE, IDM_LANG_AUTO, IDM_LANG_EN, IDM_LANG_ZH, IDM_PICK, IDM_QUIT, IDM_REGION,
    IDM_THEME_AUTO, IDM_THEME_DARK, IDM_THEME_LIGHT, MAX_CUSTOM_DELAY,
};
use ezshot::win32_thread::{hotkey_capture_mode, tray_menu_command};

fn zh_locale() -> Vec<u16> {
    "zh-TW".encode_utf16().collect()
}

fn en_locale() -> Vec<u16> {
    "en-US".encode_utf16().collect()
}

fn settings(delay: u32, cursor: bool, copy: bool, hide: bool) -> CaptureSettings {
    CaptureSettings { delay_secs: delay, capture_cursor: cursor, auto_copy: copy, hide_editor: hide }
}

// ─── Text helpers ──────────────────────────────────────────────────────────

#[test]
fn str_equals_compares_characters() {
    assert!(str_equals("auto", "auto"));
    assert!(!str_equals("auto", "aut"));
    assert!(!str_equals("zh", "ZH"));
    assert!(str_equals("", ""));
    assert!(str_equals("中文", "中文"));
}

#[test]
fn encode_utf16_nul_matches_std() {
    let w = encode_utf16_nul("é中😀");
    let mut expected: Vec<u16> = "é中😀".encode_utf16().collect();
    expected.push(0);
    assert_eq!(w, expected);
    assert_eq!(w, vec![0xE9, 0x4E2D, 0xD83D, 0xDE00, 0]);
    assert_eq!(encode_utf16_nul(""), vec![0]);
}

#[test]
fn parse_u32_follows_std_parse() {
    for text in ["0", "7", "+7", "42", "4294967295", "4294967296", "", "+", "-1", "12a", " 5", "++1", "007"] {
        assert_eq!(parse_u32(text), text.parse::<u32>().ok(), "text {:?}", text);
    }
    assert_eq!(parse_u32("+15"), Some(15));
    assert_eq!(parse_u32("99999999999"), None);
}

#[test]
fn decimal_writers_give_exact_digits() {
    let mut s = String::from("n=");
    push_decimal(&mut s, 0);
    assert_eq!(s, "n=0");
    let mut s = String::new();
    push_decimal(&mut s, 4294967295);
    assert_eq!(s, "4294967295");
    let mut s = String::new();
    push_padded_decimal(&mut s, 7, 3);
    assert_eq!(s, "007");
    let mut s = String::new();
    push_padded_decimal(&mut s, 12345, 2);
    assert_eq!(s, "45");
}

#[test]
fn skip_trailing_nuls_stops_at_text() {
    assert_eq!(skip_trailing_nuls("ab\0\0", 4), 2);
    assert_eq!(skip_trailing_nuls("ab", 2), 2);
    assert_eq!(skip_trailing_nuls("\0\0", 2), 0);
    assert_eq!(skip_trailing_nuls("a\0b\0", 4), 3);
}

// ─── Language ──────────────────────────────────────────────────────────────

#[test]
fn detect_reads_locale_prefix() {
    assert_eq!(i18n::detect(&zh_locale()), Lang::Zh);
    assert_eq!(i18n::detect(&en_locale()), Lang::En);
    assert_eq!(i18n::detect(&[]), Lang::En);
    assert_eq!(i18n::detect(&[0x7A]), Lang::En);
}

#[test]
fn init_language_setting() {
    assert_eq!(i18n::init("zh", &en_locale()), ZH);
    assert_eq!(i18n::init("en", &zh_locale()), EN);
    assert_eq!(i18n::init("auto", &zh_locale()), ZH);
    assert_eq!(i18n::init("auto", &en_locale()), EN);
    assert_eq!(i18n::init("klingon", &zh_locale()), ZH);
}

#[test]
fn explicit_language_ignores_locale() {
    for setting in ["zh", "en"] {
        assert_eq!(i18n::init(setting, &zh_locale()), i18n::init(setting, &en_locale()));
    }
}

#[test]
fn set_then_current_language() {
    for lang in [Lang::Zh, Lang::En] {
        assert_eq!(i18n::current(i18n::set(lang)), lang);
        assert_eq!(lang.as_u8(), i18n::set(lang));
    }
    assert_eq!(i18n::current(7), Lang::En);
}

#[test]
fn t_and_tw_pick_the_language() {
    assert_eq!(i18n::t(ZH, "截圖", "Capture"), "截圖");
    assert_eq!(i18n::t(EN, "截圖", "Capture"), "Capture");
    let w = i18n::tw(EN, "結束", "Quit");
    assert_eq!(w, vec![0x51, 0x75, 0x69, 0x74, 0]);
    let w = i18n::tw(ZH, "結束", "Quit");
    assert_eq!(w, vec![0x7D50, 0x675F, 0]);
}

// ─── Theme ─────────────────────────────────────────────────────────────────

#[test]
fn theme_detection_and_init() {
    assert_eq!(theme::detect(0), Theme::Dark);
    assert_eq!(theme::detect(1), Theme::Light);
    assert!(theme::system_is_dark(0));
    assert!(!theme::system_is_dark(1));
    assert_eq!(theme::init("dark", 1), DARK_U);
    assert_eq!(theme::init("light", 0), LIGHT_U);
    assert_eq!(theme::init("auto", 0), DARK_U);
    assert_eq!(theme::init("auto", 1), LIGHT_U);
}

#[test]
fn set_then_current_theme() {
    for t in [Theme::Light, Theme::Dark] {
        assert_eq!(theme::current(theme::set(t)), t);
    }
    assert_eq!(theme::current(9), Theme::Light);
}

#[test]
fn theme_colours_and_menu_modes() {
    let light = theme::colors(Theme::Light);
    let dark = theme::colors(Theme::Dark);
    assert_eq!(light.toolbar_bg, 0x00F0F0F0);
    assert_eq!(dark.toolbar_bg, 0x002D2D2D);
    assert_eq!(dark.red_dot, 0x004040FF);
    assert_eq!(light.tooltip_bg, 0x00E1FFFF);
    assert_eq!(theme::menu_mode(true), AppMode::ForceDark);
    assert_eq!(theme::menu_mode(false), AppMode::ForceLight);
    assert_eq!(theme::restore_after_menu(), AppMode::AllowDark);
    assert_eq!(AppMode::AllowDark.value(), 1);
    assert_eq!(AppMode::ForceDark.value(), 2);
    assert_eq!(AppMode::ForceLight.value(), 3);
}

// ─── Hotkeys ───────────────────────────────────────────────────────────────

#[test]
fn hotkeys_map_letters_to_captures() {
    assert_eq!(HOTKEY_MODIFIERS, 0x0001 | 0x0004);
    assert_eq!(hotkey_key(ID_HOTKEY_REGION), 'R' as u32);
    assert_eq!(hotkey_key(ID_HOTKEY_ACTIVE), 'A' as u32);
    assert_eq!(hotkey_key(ID_HOTKEY_PICK), 'W' as u32);
    assert_eq!(hotkey_key(ID_HOTKEY_FULLSCREEN), 'F' as u32);
    assert!(matches!(handle_wm_hotkey(ID_HOTKEY_REGION), Some(AppEvent::CaptureRegion)));
    assert!(matches!(handle_wm_hotkey(ID_HOTKEY_ACTIVE), Some(AppEvent::CaptureActiveWindow)));
    assert!(matches!(handle_wm_hotkey(ID_HOTKEY_PICK), Some(AppEvent::CapturePickWindow)));
    assert!(matches!(handle_wm_hotkey(ID_HOTKEY_FULLSCREEN), Some(AppEvent::CaptureFullscreen)));
    assert!(handle_wm_hotkey(0).is_none());
    assert!(handle_wm_hotkey(5).is_none());
}

#[test]
fn window_thread_decisions() {
    assert_eq!(hotkey_capture_mode(1), Some(CaptureMode::FullScreen));
    assert_eq!(hotkey_capture_mode(2), Some(CaptureMode::ActiveWindow));
    assert_eq!(hotkey_capture_mode(3), Some(CaptureMode::Region));
    assert_eq!(hotkey_capture_mode(4), Some(CaptureMode::SelectWindow));
    assert_eq!(hotkey_capture_mode(5), None);
    assert_eq!(tray_menu_command(100), Some(MainCmd::ShowWindow));
    assert_eq!(tray_menu_command(101), Some(MainCmd::StartCapture(CaptureMode::FullScreen)));
    assert_eq!(tray_menu_command(102), Some(MainCmd::Quit));
    assert_eq!(tray_menu_command(103), None);
}

// ─── Capture state machine ─────────────────────────────────────────────────

#[test]
fn region_capture_round_trip() {
    let s = settings(3, true, false, true);
    let (st, act) = step(AppState::Idle, &AppEvent::CaptureRegion, s);
    assert_eq!(st, AppState::OverlayRegion);
    assert_eq!(act, Action::ShowRegionOverlay { hide_editor: true });
    let rect = Rect { left: 10, top: 20, right: 110, bottom: 220 };
    let (st, act) = step(st, &AppEvent::RegionSelected(rect), s);
    assert_eq!(st, AppState::Idle);
    assert_eq!(act, Action::CaptureRegion { rect, delay_secs: 3, capture_cursor: true, auto_copy: false });
}

#[test]
fn pick_capture_round_trip() {
    let s = settings(0, false, true, false);
    let (st, act) = step(AppState::Idle, &AppEvent::CapturePickWindow, s);
    assert_eq!(st, AppState::OverlayPick);
    assert_eq!(act, Action::ShowPickOverlay { hide_editor: false });
    let (st, act) = step(st, &AppEvent::WindowPicked(0x1234), s);
    assert_eq!(st, AppState::Idle);
    assert_eq!(act, Action::CaptureWindow { hwnd: 0x1234, delay_secs: 0, capture_cursor: false, auto_copy: true });
}

#[test]
fn immediate_captures_from_idle() {
    let s = settings(2, false, false, false);
    assert_eq!(step(AppState::Idle, &AppEvent::CaptureActiveWindow, s), (AppState::Idle, Action::CaptureActiveWindow { settings: s }));
    assert_eq!(step(AppState::Idle, &AppEvent::CaptureFullscreen, s), (AppState::Idle, Action::CaptureFullscreen { settings: s }));
}

#[test]
fn quit_is_honoured_in_every_state() {
    let s = settings(0, false, false, false);
    for st in [AppState::Idle, AppState::OverlayRegion, AppState::OverlayPick] {
        assert_eq!(step(st, &AppEvent::TrayQuit, s), (st, Action::Quit));
        assert_eq!(step(st, &AppEvent::ShowEditor, s), (st, Action::ShowEditor));
    }
}

#[test]
fn no_second_overlay_while_one_is_open() {
    let s = settings(0, false, false, false);
    for st in [AppState::OverlayRegion, AppState::OverlayPick] {
        for e in [AppEvent::CaptureRegion, AppEvent::CapturePickWindow, AppEvent::CaptureActiveWindow, AppEvent::CaptureFullscreen] {
            assert_eq!(step(st, &e, s), (st, Action::Nothing));
        }
    }
}

#[test]
fn cancel_returns_to_idle_and_stray_results_are_ignored() {
    let s = settings(0, false, false, false);
    assert_eq!(step(AppState::OverlayRegion, &AppEvent::OverlayCancelled, s), (AppState::Idle, Action::Nothing));
    assert_eq!(step(AppState::OverlayPick, &AppEvent::OverlayCancelled, s), (AppState::Idle, Action::Nothing));
    assert_eq!(step(AppState::Idle, &AppEvent::OverlayCancelled, s), (AppState::Idle, Action::Nothing));
    let rect = Rect { left: 0, top: 0, right: 50, bottom: 50 };
    assert_eq!(step(AppState::Idle, &AppEvent::RegionSelected(rect), s), (AppState::Idle, Action::Nothing));
    assert_eq!(step(AppState::OverlayPick, &AppEvent::RegionSelected(rect), s), (AppState::OverlayPick, Action::Nothing));
    assert_eq!(step(AppState::OverlayRegion, &AppEvent::WindowPicked(9), s), (AppState::OverlayRegion, Action::Nothing));
    let save = AppEvent::EditorSave { to_clipboard: true, path: Some(String::from("a.png")) };
    assert_eq!(step(AppState::Idle, &save, s), (AppState::Idle, Action::Nothing));
    assert_eq!(step(AppState::OverlayPick, &AppEvent::EditorCancelled, s), (AppState::OverlayPick, Action::Nothing));
}

// ─── Tray ──────────────────────────────────────────────────────────────────

fn config() -> Config {
    Config::new(String::from("C:\\shots"))
}

#[test]
fn config_defaults() {
    let c = config();
    assert_eq!(c.save_dir, "C:\\shots");
    assert!(!c.capture_cursor && !c.auto_copy && !c.hide_editor_on_capture);
    assert_eq!(c.capture_delay_secs, 0);
    assert_eq!(c.language, "auto");
    assert_eq!(c.theme, "auto");
}

#[test]
fn tray_click_reads_low_word() {
    assert_eq!(tray_click(0x0205), TrayClick::ShowMenu);
    assert_eq!(tray_click(0x007B), TrayClick::ShowMenu);
    assert_eq!(tray_click(0x0203), TrayClick::ShowEditor);
    assert_eq!(tray_click(0x0201), TrayClick::Nothing);
    assert_eq!(tray_click(0x0003_0205), TrayClick::ShowMenu);
    assert_eq!(tray_click(0x7_0000_0203), TrayClick::ShowEditor);
}

#[test]
fn capture_commands_send_events() {
    let mut c = config();
    assert!(matches!(apply_command(&mut c, IDM_REGION), TrayAction::Send(AppEvent::CaptureRegion)));
    assert!(matches!(apply_command(&mut c, IDM_ACTIVE), TrayAction::Send(AppEvent::CaptureActiveWindow)));
    assert!(matches!(apply_command(&mut c, IDM_PICK), TrayAction::Send(AppEvent::CapturePickWindow)));
    assert!(matches!(apply_command(&mut c, IDM_QUIT), TrayAction::Quit));
    assert!(matches!(apply_command(&mut c, IDM_DELAY_CUSTOM), TrayAction::AskCustomDelay));
    assert!(matches!(apply_command(&mut c, 12345), TrayAction::Nothing));
    assert!(!c.capture_cursor && c.capture_delay_secs == 0 && c.language == "auto");
}

#[test]
fn toggles_flip_and_toggle_twice_restores() {
    let mut c = config();
    assert!(matches!(apply_command(&mut c, IDM_CURSOR), TrayAction::Persist));
    assert!(c.capture_cursor);
    assert!(!c.auto_copy && !c.hide_editor_on_capture);
    apply_command(&mut c, IDM_CURSOR);
    assert!(!c.capture_cursor);
    apply_command(&mut c, IDM_AUTO_COPY);
    assert!(c.auto_copy);
    apply_command(&mut c, IDM_AUTO_COPY);
    assert!(!c.auto_copy);
    apply_command(&mut c, IDM_HIDE_ON_CAPTURE);
    assert!(c.hide_editor_on_capture);
    apply_command(&mut c, IDM_HIDE_ON_CAPTURE);
    assert!(!c.hide_editor_on_capture);
    assert_eq!(c.save_dir, "C:\\shots");
}

#[test]
fn delay_presets_set_seconds() {
    let mut c = config();
    for (id, secs) in [(IDM_DELAY_1, 1), (IDM_DELAY_2, 2), (IDM_DELAY_3, 3), (IDM_DELAY_5, 5), (IDM_DELAY_0, 0)] {
        assert!(matches!(apply_command(&mut c, id), TrayAction::Persist));
        assert_eq!(c.capture_delay_secs, secs);
    }
}

#[test]
fn language_and_theme_commands() {
    let mut c = config();
    assert!(matches!(apply_command(&mut c, IDM_LANG_ZH), TrayAction::PersistLanguage(Some(Lang::Zh))));
    assert_eq!(c.language, "zh");
    assert_eq!(lang_menu_id(&c.language), IDM_LANG_ZH);
    assert!(matches!(apply_command(&mut c, IDM_LANG_EN), TrayAction::PersistLanguage(Some(Lang::En))));
    assert_eq!(c.language, "en");
    assert!(matches!(apply_command(&mut c, IDM_LANG_AUTO), TrayAction::PersistLanguage(None)));
    assert_eq!(c.language, "auto");
    assert_eq!(lang_menu_id(&c.language), IDM_LANG_AUTO);
    assert!(matches!(apply_command(&mut c, IDM_THEME_DARK), TrayAction::PersistTheme(Some(Theme::Dark))));
    assert_eq!(c.theme, "dark");
    assert_eq!(theme_menu_id(&c.theme), IDM_THEME_DARK);
    assert!(matches!(apply_command(&mut c, IDM_THEME_LIGHT), TrayAction::PersistTheme(Some(Theme::Light))));
    assert_eq!(theme_menu_id(&c.theme), IDM_THEME_LIGHT);
    assert!(matches!(apply_command(&mut c, IDM_THEME_AUTO), TrayAction::PersistTheme(None)));
    assert_eq!(theme_menu_id(&c.theme), IDM_THEME_AUTO);
    assert_eq!(lang_menu_id("fr"), IDM_LANG_AUTO);
    assert_eq!(theme_menu_id("sepia"), IDM_THEME_AUTO);
}

#[test]
fn exactly_one_delay_item_checked() {
    let ids = [IDM_DELAY_0, IDM_DELAY_1, IDM_DELAY_2, IDM_DELAY_3, IDM_DELAY_5, IDM_DELAY_CUSTOM];
    for secs in [0, 1, 2, 3, 4, 5, 6, 42, 99] {
        let n = ids.iter().filter(|&&id| delay_item_checked(id, secs)).count();
        assert_eq!(n, 1, "delay {}", secs);
    }
    assert!(delay_item_checked(IDM_DELAY_3, 3));
    assert!(delay_item_checked(IDM_DELAY_CUSTOM, 7));
    assert!(!delay_item_checked(IDM_REGION, 0));
    assert!(is_preset_delay(5) && !is_preset_delay(4));
}

#[test]
fn custom_delay_labels() {
    assert_eq!(custom_delay_label(EN, 2), "Custom...");
    assert_eq!(custom_delay_label(ZH, 0), "自訂...");
    assert_eq!(custom_delay_label(EN, 12), "Custom: 12 sec...");
    assert_eq!(custom_delay_label(ZH, 7), "自訂: 7 秒...");
}

#[test]
fn parse_delay_reads_box_text() {
    assert_eq!(parse_delay("7"), 7);
    assert_eq!(parse_delay("+7"), 7);
    assert_eq!(parse_delay("150"), MAX_CUSTOM_DELAY);
    assert_eq!(parse_delay("99"), 99);
    assert_eq!(parse_delay("abc"), 0);
    assert_eq!(parse_delay(""), 0);
    assert_eq!(parse_delay("12\0\0"), 12);
    assert_eq!(parse_delay(" 5"), 0);
    assert_eq!(parse_delay("99999999999"), 0);
}

#[test]
fn saved_dir_text_is_trimmed() {
    assert_eq!(saved_dir_text("  C:\\Users\\me\\Pictures\r\n"), "C:\\Users\\me\\Pictures");
    assert_eq!(saved_dir_text("D:\\shots"), "D:\\shots");
    assert_eq!(saved_dir_text(" \t\n"), "");
    assert_eq!(saved_dir_text("\u{3000}E:\\a b\u{a0}"), "E:\\a b");
    for text in ["x", "  x y  ", "\u{2003}z\u{85}", ""] {
        assert_eq!(saved_dir_text(text), text.trim());
    }
}

#[test]
fn settings_text_lists_every_setting() {
    let mut c = config();
    assert_eq!(
        settings_text(&c),
        "capture_cursor=0\nauto_copy=0\nhide_editor_on_capture=0\ncapture_delay_secs=0\nlanguage=auto\ntheme=auto\n"
    );
    c.capture_cursor = true;
    c.hide_editor_on_capture = true;
    c.capture_delay_secs = 42;
    c.language = String::from("zh");
    c.theme = String::from("dark");
    assert_eq!(
        settings_text(&c),
        "capture_cursor=1\nauto_copy=0\nhide_editor_on_capture=1\ncapture_delay_secs=42\nlanguage=zh\ntheme=dark\n"
    );
}

#[test]
fn settings_read_back_what_was_written() {
    let mut c = config();
    apply_command(&mut c, IDM_CURSOR);
    apply_command(&mut c, IDM_AUTO_COPY);
    apply_command(&mut c, IDM_DELAY_3);
    apply_command(&mut c, IDM_LANG_EN);
    apply_command(&mut c, IDM_THEME_LIGHT);
    let text = settings_text(&c);
    let mut d = Config::new(String::from("elsewhere"));
    d.hide_editor_on_capture = true;
    apply_settings_text(&mut d, &text);
    assert!(d.capture_cursor && d.auto_copy && !d.hide_editor_on_capture);
    assert_eq!(d.capture_delay_secs, 3);
    assert_eq!(d.language, "en");
    assert_eq!(d.theme, "light");
    assert_eq!(d.save_dir, "elsewhere");
}

#[test]
fn settings_file_lines_are_read_leniently() {
    let mut c = config();
    apply_settings_text(
        &mut c,
        "capture_cursor=1\r\nlanguage=zh\r\ncapture_delay_secs=150\nbogus=1\ntheme=purple\nauto_copy=yes\n",
    );
    assert!(c.capture_cursor);
    assert!(!c.auto_copy);
    assert_eq!(c.language, "zh");
    assert_eq!(c.capture_delay_secs, MAX_CUSTOM_DELAY);
    assert_eq!(c.theme, "auto");
    apply_settings_text(&mut c, "capture_delay_secs=abc\ncapture_cursor=0");
    assert_eq!(c.capture_delay_secs, MAX_CUSTOM_DELAY);
    assert!(!c.capture_cursor);
    apply_settings_text(&mut c, "");
    assert!(!c.capture_cursor);
    apply_settings_text(&mut c, "theme=dark\ntheme=light\n");
    assert_eq!(c.theme, "light");
}
