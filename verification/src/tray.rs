//! The tray icon: what a click on it does, what each menu command changes in
//! the settings and what else it asks for, how the menu is checked, and the
//! custom-delay input.
use vstd::prelude::*;
use vstd::string::StrSliceExecFns;
use crate::config::Config;
use crate::event::AppEvent;
use crate::i18n::{Lang, lang_of_code};
use crate::theme::Theme;
use crate::text::{
    decimal, parse_u32, push_decimal, skip_trailing_nuls, spec_parse_u32, str_equals, strip_trailing_nuls,
};

verus! {

/// Message the tray icon sends to the message window (WM_APP + 1).
pub const WM_TRAY: u32 = 0x8001;

pub const IDM_REGION: u32 = 100;
pub const IDM_ACTIVE: u32 = 101;
pub const IDM_PICK: u32 = 102;
pub const IDM_CURSOR: u32 = 110;
pub const IDM_AUTO_COPY: u32 = 111;
pub const IDM_HIDE_ON_CAPTURE: u32 = 112;
pub const IDM_DELAY_0: u32 = 200;
pub const IDM_DELAY_1: u32 = 201;
pub const IDM_DELAY_2: u32 = 202;
pub const IDM_DELAY_3: u32 = 203;
pub const IDM_DELAY_5: u32 = 205;
pub const IDM_DELAY_CUSTOM: u32 = 210;
pub const IDM_LANG_AUTO: u32 = 300;
pub const IDM_LANG_ZH: u32 = 301;
pub const IDM_LANG_EN: u32 = 302;
pub const IDM_THEME_AUTO: u32 = 310;
pub const IDM_THEME_LIGHT: u32 = 311;
pub const IDM_THEME_DARK: u32 = 312;
pub const IDM_QUIT: u32 = 999;

/// The largest delay the custom-delay box accepts.
pub const MAX_CUSTOM_DELAY: u32 = 99;

/// What a mouse event on the tray icon asks for.
#[derive(Clone, Copy, Debug, PartialEq, Eq, Structural)]
pub enum TrayClick {
    Nothing,
    /// Right button released or context-menu key: show the menu.
    ShowMenu,
    /// Double click: bring the editor forward.
    ShowEditor,
}

/// What the message window does after a menu command, besides the change
/// to the settings.
#[derive(Clone, Debug)]
pub enum TrayAction {
    Nothing,
    /// Send this event to the capture state machine.
    Send(AppEvent),
    /// Save the settings.
    Persist,
    /// Save the settings and switch language: `None` re-detects it from the
    /// system.
    PersistLanguage(Option<Lang>),
    /// Save the settings, switch theme (`None` re-detects it from the
    /// system) and tell the editor to repaint.
    PersistTheme(Option<Theme>),
    /// Ask for a custom delay.
    AskCustomDelay,
    /// Send TrayQuit to the state machine and end the message loop.
    Quit,
}

/// What a tray-icon notification (the low word of its LPARAM) asks for.
pub fn tray_click(lp: isize) -> (c: TrayClick)
    ensures
        c == (if lp as int % 0x10000 == 0x0205 || lp as int % 0x10000 == 0x007B {
            TrayClick::ShowMenu
        } else if lp as int % 0x10000 == 0x0203 {
            TrayClick::ShowEditor
        } else {
            TrayClick::Nothing
        }),
{
    let event: u32 = (lp & 0xFFFF) as u32;
    assert(event == lp as int % 0x10000) by (bit_vector)
        requires
            event == (lp & 0xFFFF) as u32,
    ;
    if event == 0x0205 || event == 0x007B {
        TrayClick::ShowMenu
    } else if event == 0x0203 {
        TrayClick::ShowEditor
    } else {
        TrayClick::Nothing
    }
}

/// The delay in seconds a preset delay command sets.
pub open spec fn spec_preset_delay(id: u32) -> u32 {
    if id == IDM_DELAY_1 {
        1
    } else if id == IDM_DELAY_2 {
        2
    } else if id == IDM_DELAY_3 {
        3
    } else if id == IDM_DELAY_5 {
        5
    } else {
        0
    }
}

pub open spec fn is_preset_delay_command(id: u32) -> bool {
    id == IDM_DELAY_0 || id == IDM_DELAY_1 || id == IDM_DELAY_2 || id == IDM_DELAY_3 || id == IDM_DELAY_5
}

/// The settings fields a command leaves alone are unchanged.
pub open spec fn same_except(a: Config, b: Config, cursor: bool, copy: bool, hide: bool, delay: bool, lang: bool, theme: bool) -> bool {
    &&& a.save_dir@ == b.save_dir@
    &&& (cursor || a.capture_cursor == b.capture_cursor)
    &&& (copy || a.auto_copy == b.auto_copy)
    &&& (hide || a.hide_editor_on_capture == b.hide_editor_on_capture)
    &&& (delay || a.capture_delay_secs == b.capture_delay_secs)
    &&& (lang || a.language@ == b.language@)
    &&& (theme || a.theme@ == b.theme@)
}

/// Carries out tray-menu command `id` on the settings and says what else to
/// do. The toggles flip their setting; the delay presets set 0, 1, 2, 3 or
/// 5 seconds; the language and theme items store "auto", "zh", "en" or
/// "auto", "light", "dark".
pub fn apply_command(config: &mut Config, id: u32) -> (a: TrayAction)
    ensures
        id == IDM_REGION ==> a == TrayAction::Send(AppEvent::CaptureRegion) && same_except(
            *final(config),
            *old(config),
            false,
            false,
            false,
            false,
            false,
            false,
        ),
        id == IDM_ACTIVE ==> a == TrayAction::Send(AppEvent::CaptureActiveWindow) && same_except(
            *final(config),
            *old(config),
            false,
            false,
            false,
            false,
            false,
            false,
        ),
        id == IDM_PICK ==> a == TrayAction::Send(AppEvent::CapturePickWindow) && same_except(
            *final(config),
            *old(config),
            false,
            false,
            false,
            false,
            false,
            false,
        ),
        id == IDM_CURSOR ==> a == TrayAction::Persist && final(config).capture_cursor == !old(
            config,
        ).capture_cursor && same_except(*final(config), *old(config), true, false, false, false, false, false),
        id == IDM_AUTO_COPY ==> a == TrayAction::Persist && final(config).auto_copy == !old(config).auto_copy
            && same_except(*final(config), *old(config), false, true, false, false, false, false),
        id == IDM_HIDE_ON_CAPTURE ==> a == TrayAction::Persist && final(config).hide_editor_on_capture
            == !old(config).hide_editor_on_capture && same_except(
            *final(config),
            *old(config),
            false,
            false,
            true,
            false,
            false,
            false,
        ),
        is_preset_delay_command(id) ==> a == TrayAction::Persist && final(config).capture_delay_secs
            == spec_preset_delay(id) && same_except(*final(config), *old(config), false, false, false, true, false, false),
        id == IDM_DELAY_CUSTOM ==> a == TrayAction::AskCustomDelay && same_except(
            *final(config),
            *old(config),
            false,
            false,
            false,
            false,
            false,
            false,
        ),
        id == IDM_LANG_AUTO ==> a == TrayAction::PersistLanguage(None) && final(config).language@ == "auto"@
            && same_except(*final(config), *old(config), false, false, false, false, true, false),
        id == IDM_LANG_ZH ==> a == TrayAction::PersistLanguage(Some(Lang::Zh)) && final(config).language@
            == "zh"@ && same_except(*final(config), *old(config), false, false, false, false, true, false),
        id == IDM_LANG_EN ==> a == TrayAction::PersistLanguage(Some(Lang::En)) && final(config).language@
            == "en"@ && same_except(*final(config), *old(config), false, false, false, false, true, false),
        id == IDM_THEME_AUTO ==> a == TrayAction::PersistTheme(None) && final(config).theme@ == "auto"@
            && same_except(*final(config), *old(config), false, false, false, false, false, true),
        id == IDM_THEME_LIGHT ==> a == TrayAction::PersistTheme(Some(Theme::Light)) && final(config).theme@
            == "light"@ && same_except(*final(config), *old(config), false, false, false, false, false, true),
        id == IDM_THEME_DARK ==> a == TrayAction::PersistTheme(Some(Theme::Dark)) && final(config).theme@
            == "dark"@ && same_except(*final(config), *old(config), false, false, false, false, false, true),
        id == IDM_QUIT ==> a == TrayAction::Quit && same_except(
            *final(config),
            *old(config),
            false,
            false,
            false,
            false,
            false,
            false,
        ),
        !(id == IDM_REGION || id == IDM_ACTIVE || id == IDM_PICK || id == IDM_CURSOR || id == IDM_AUTO_COPY
            || id == IDM_HIDE_ON_CAPTURE || is_preset_delay_command(id) || id == IDM_DELAY_CUSTOM || id
            == IDM_LANG_AUTO || id == IDM_LANG_ZH || id == IDM_LANG_EN || id == IDM_THEME_AUTO || id
            == IDM_THEME_LIGHT || id == IDM_THEME_DARK || id == IDM_QUIT) ==> a == TrayAction::Nothing
            && same_except(*final(config), *old(config), false, false, false, false, false, false),
{
    if id == IDM_REGION {
        TrayAction::Send(AppEvent::CaptureRegion)
    } else if id == IDM_ACTIVE {
        TrayAction::Send(AppEvent::CaptureActiveWindow)
    } else if id == IDM_PICK {
        TrayAction::Send(AppEvent::CapturePickWindow)
    } else if id == IDM_CURSOR {
        config.capture_cursor = !config.capture_cursor;
        TrayAction::Persist
    } else if id == IDM_AUTO_COPY {
        config.auto_copy = !config.auto_copy;
        TrayAction::Persist
    } else if id == IDM_HIDE_ON_CAPTURE {
        config.hide_editor_on_capture = !config.hide_editor_on_capture;
        TrayAction::Persist
    } else if id == IDM_LANG_AUTO {
        config.language = String::from_str("auto");
        TrayAction::PersistLanguage(None)
    } else if id == IDM_LANG_ZH {
        config.language = String::from_str("zh");
        TrayAction::PersistLanguage(Some(Lang::Zh))
    } else if id == IDM_LANG_EN {
        config.language = String::from_str("en");
        TrayAction::PersistLanguage(Some(Lang::En))
    } else if id == IDM_THEME_AUTO {
        config.theme = String::from_str("auto");
        TrayAction::PersistTheme(None)
    } else if id == IDM_THEME_LIGHT {
        config.theme = String::from_str("light");
        TrayAction::PersistTheme(Some(Theme::Light))
    } else if id == IDM_THEME_DARK {
        config.theme = String::from_str("dark");
        TrayAction::PersistTheme(Some(Theme::Dark))
    } else if id == IDM_DELAY_0 || id == IDM_DELAY_1 || id == IDM_DELAY_2 || id == IDM_DELAY_3 || id
        == IDM_DELAY_5 {
        config.capture_delay_secs = if id == IDM_DELAY_1 {
            1
        } else if id == IDM_DELAY_2 {
            2
        } else if id == IDM_DELAY_3 {
            3
        } else if id == IDM_DELAY_5 {
            5
        } else {
            0
        };
        TrayAction::Persist
    } else if id == IDM_DELAY_CUSTOM {
        TrayAction::AskCustomDelay
    } else if id == IDM_QUIT {
        TrayAction::Quit
    } else {
        TrayAction::Nothing
    }
}

/// Choosing a toggle twice gives back the settings it started from.
pub proof fn lemma_toggle_twice(c0: Config, c1: Config, c2: Config, id: u32)
    requires
        id == IDM_CURSOR || id == IDM_AUTO_COPY || id == IDM_HIDE_ON_CAPTURE,
        id == IDM_CURSOR ==> c1.capture_cursor == !c0.capture_cursor && same_except(c1, c0, true, false, false, false, false, false),
        id == IDM_CURSOR ==> c2.capture_cursor == !c1.capture_cursor && same_except(c2, c1, true, false, false, false, false, false),
        id == IDM_AUTO_COPY ==> c1.auto_copy == !c0.auto_copy && same_except(c1, c0, false, true, false, false, false, false),
        id == IDM_AUTO_COPY ==> c2.auto_copy == !c1.auto_copy && same_except(c2, c1, false, true, false, false, false, false),
        id == IDM_HIDE_ON_CAPTURE ==> c1.hide_editor_on_capture == !c0.hide_editor_on_capture && same_except(c1, c0, false, false, true, false, false, false),
        id == IDM_HIDE_ON_CAPTURE ==> c2.hide_editor_on_capture == !c1.hide_editor_on_capture && same_except(c2, c1, false, false, true, false, false, false),
    ensures
        same_except(c2, c0, false, false, false, false, false, false),
{
}

/// Whether a delay is one of the menu presets (0, 1, 2, 3 or 5 seconds).
pub fn is_preset_delay(secs: u32) -> (b: bool)
    ensures
        b == (secs == 0 || secs == 1 || secs == 2 || secs == 3 || secs == 5),
{
    secs == 0 || secs == 1 || secs == 2 || secs == 3 || secs == 5
}

/// Whether menu item `id` of the delay submenu carries a check mark for the
/// current delay: the matching preset, or "Custom" for any other delay.
pub fn delay_item_checked(id: u32, secs: u32) -> (b: bool)
    ensures
        b == (if id == IDM_DELAY_CUSTOM {
            !(secs == 0 || secs == 1 || secs == 2 || secs == 3 || secs == 5)
        } else {
            is_preset_delay_command(id) && spec_preset_delay(id) == secs
        }),
{
    if id == IDM_DELAY_CUSTOM {
        !is_preset_delay(secs)
    } else if id == IDM_DELAY_0 || id == IDM_DELAY_1 || id == IDM_DELAY_2 || id == IDM_DELAY_3 || id
        == IDM_DELAY_5 {
        let preset: u32 = if id == IDM_DELAY_1 {
            1
        } else if id == IDM_DELAY_2 {
            2
        } else if id == IDM_DELAY_3 {
            3
        } else if id == IDM_DELAY_5 {
            5
        } else {
            0
        };
        preset == secs
    } else {
        false
    }
}

/// Exactly one item of the delay submenu is checked, whatever the delay.
pub proof fn lemma_one_delay_checked(secs: u32)
    ensures
        ({
            let checked = |id: u32|
                if id == IDM_DELAY_CUSTOM {
                    !(secs == 0 || secs == 1 || secs == 2 || secs == 3 || secs == 5)
                } else {
                    is_preset_delay_command(id) && spec_preset_delay(id) == secs
                };
            (checked(IDM_DELAY_0) as int) + (checked(IDM_DELAY_1) as int) + (checked(IDM_DELAY_2) as int)
                + (checked(IDM_DELAY_3) as int) + (checked(IDM_DELAY_5) as int) + (checked(IDM_DELAY_CUSTOM) as int) == 1
        }),
{
}

/// The label of the "Custom" delay item: plain for a preset delay, else
/// showing the current number of seconds.
pub open spec fn spec_custom_delay_label(lang: Lang, secs: u32) -> Seq<char> {
    if secs == 0 || secs == 1 || secs == 2 || secs == 3 || secs == 5 {
        if lang == Lang::Zh { "自訂..."@ } else { "Custom..."@ }
    } else if lang == Lang::Zh {
        "自訂: "@ + decimal(secs as nat) + " 秒..."@
    } else {
        "Custom: "@ + decimal(secs as nat) + " sec..."@
    }
}

/// The label of the "Custom" delay item in the language in force.
pub fn custom_delay_label(lang_code: u8, secs: u32) -> (s: String)
    ensures
        s@ == spec_custom_delay_label(lang_of_code(lang_code), secs),
{
    let zh = crate::i18n::current(lang_code) == Lang::Zh;
    if is_preset_delay(secs) {
        if zh { String::from_str("自訂...") } else { String::from_str("Custom...") }
    } else {
        let mut s = if zh { String::from_str("自訂: ") } else { String::from_str("Custom: ") };
        push_decimal(&mut s, secs);
        if zh {
            s.append(" 秒...");
        } else {
            s.append(" sec...");
        }
        s
    }
}

/// The language item checked for a language setting.
pub fn lang_menu_id(setting: &str) -> (id: u32)
    ensures
        id == (if setting@ == "zh"@ {
            IDM_LANG_ZH
        } else if setting@ == "en"@ {
            IDM_LANG_EN
        } else {
            IDM_LANG_AUTO
        }),
{
    if str_equals(setting, "zh") {
        IDM_LANG_ZH
    } else if str_equals(setting, "en") {
        IDM_LANG_EN
    } else {
        IDM_LANG_AUTO
    }
}

/// The theme item checked for a theme setting.
pub fn theme_menu_id(setting: &str) -> (id: u32)
    ensures
        id == (if setting@ == "light"@ {
            IDM_THEME_LIGHT
        } else if setting@ == "dark"@ {
            IDM_THEME_DARK
        } else {
            IDM_THEME_AUTO
        }),
{
    if str_equals(setting, "light") {
        IDM_THEME_LIGHT
    } else if str_equals(setting, "dark") {
        IDM_THEME_DARK
    } else {
        IDM_THEME_AUTO
    }
}

/// The delay the custom-delay box yields: its text without trailing NULs
/// read as a `u32` (0 when it is not one), capped at 99 seconds.
pub open spec fn spec_parse_delay(text: Seq<char>) -> u32 {
    let v = match spec_parse_u32(strip_trailing_nuls(text)) {
        Some(v) => v,
        None => 0,
    };
    if v > MAX_CUSTOM_DELAY { MAX_CUSTOM_DELAY } else { v }
}

/// Reads the custom-delay box.
pub fn parse_delay(text: &str) -> (secs: u32)
    ensures
        secs == spec_parse_delay(text@),
        secs <= MAX_CUSTOM_DELAY,
{
    let n = text.unicode_len();
    assert(text@.subrange(0, n as int) =~= text@);
    let hi = skip_trailing_nuls(text, n);
    let body = text.substring_char(0, hi);
    let v = match parse_u32(body) {
        Some(v) => v,
        None => 0,
    };
    if v > MAX_CUSTOM_DELAY { MAX_CUSTOM_DELAY } else { v }
}

} // verus!
