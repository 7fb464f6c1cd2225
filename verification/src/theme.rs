//! Light / dark theme: the stored code, the system setting, the colours of
//! each theme, and the menu-mode decisions for the undocumented uxtheme calls.
use vstd::prelude::*;
use crate::text::str_equals;

verus! {

/// Stored code for the light theme.
pub const LIGHT_U: u8 = 0;
/// Stored code for the dark theme.
pub const DARK_U: u8 = 1;

#[derive(Clone, Copy, Debug, PartialEq, Eq, Structural)]
pub enum Theme {
    Light,
    Dark,
}

/// Theme colours as COLORREF values (0x00BBGGRR).
#[derive(Clone, Copy, Debug, PartialEq, Eq, Structural)]
pub struct ThemeColors {
    pub toolbar_bg: u32,
    pub tab_bar_bg: u32,
    pub tab_active: u32,
    pub tab_inactive: u32,
    pub tab_text_active: u32,
    pub tab_text_inactive: u32,
    pub tab_close_btn: u32,
    pub btn_icon: u32,
    pub canvas_bg: u32,
    pub tooltip_bg: u32,
    pub red_dot: u32,
}

/// The preferred-app-mode argument of uxtheme's SetPreferredAppMode.
#[derive(Clone, Copy, Debug, PartialEq, Eq, Structural)]
pub enum AppMode {
    /// Let the system's dark-mode setting decide (argument 1).
    AllowDark,
    /// Force dark menus (argument 2).
    ForceDark,
    /// Force light menus (argument 3).
    ForceLight,
}

pub open spec fn theme_code(t: Theme) -> u8 {
    match t {
        Theme::Light => LIGHT_U,
        Theme::Dark => DARK_U,
    }
}

/// The theme a stored code stands for: `DARK_U` is dark, anything else light.
pub open spec fn theme_of_code(c: u8) -> Theme {
    if c == DARK_U { Theme::Dark } else { Theme::Light }
}

/// The system theme from the "AppsUseLightTheme" registry value (1 when the
/// value cannot be read): 0 means dark.
pub open spec fn spec_detect(apps_use_light_theme: u32) -> Theme {
    if apps_use_light_theme == 0 { Theme::Dark } else { Theme::Light }
}

/// The theme chosen by a setting string: "dark", "light", or anything else
/// (such as "auto") for the system theme.
pub open spec fn spec_setting_theme(setting: Seq<char>, detected: Theme) -> Theme {
    if setting == "dark"@ {
        Theme::Dark
    } else if setting == "light"@ {
        Theme::Light
    } else {
        detected
    }
}

pub open spec fn spec_colors(t: Theme) -> ThemeColors {
    match t {
        Theme::Light => ThemeColors {
            toolbar_bg: 0x00F0F0F0,
            tab_bar_bg: 0x00D8D8D8,
            tab_active: 0x00F0F0F0,
            tab_inactive: 0x00C8C8C8,
            tab_text_active: 0x00101010,
            tab_text_inactive: 0x00505050,
            tab_close_btn: 0x00707070,
            btn_icon: 0x00404040,
            canvas_bg: 0x00B0B0B0,
            tooltip_bg: 0x00E1FFFF,
            red_dot: 0x000000CC,
        },
        Theme::Dark => ThemeColors {
            toolbar_bg: 0x002D2D2D,
            tab_bar_bg: 0x001E1E1E,
            tab_active: 0x003D3D3D,
            tab_inactive: 0x00282828,
            tab_text_active: 0x00E4E4E4,
            tab_text_inactive: 0x00909090,
            tab_close_btn: 0x00A0A0A0,
            btn_icon: 0x00C4C4C4,
            canvas_bg: 0x003C3C3C,
            tooltip_bg: 0x003A3A3A,
            red_dot: 0x004040FF,
        },
    }
}

pub open spec fn app_mode_value(m: AppMode) -> i32 {
    match m {
        AppMode::AllowDark => 1,
        AppMode::ForceDark => 2,
        AppMode::ForceLight => 3,
    }
}

impl AppMode {
    /// The integer argument uxtheme expects for this mode.
    pub fn value(self) -> (v: i32)
        ensures
            v == app_mode_value(self),
    {
        match self {
            AppMode::AllowDark => 1,
            AppMode::ForceDark => 2,
            AppMode::ForceLight => 3,
        }
    }
}

/// The system theme from the "AppsUseLightTheme" registry value.
pub fn detect(apps_use_light_theme: u32) -> (t: Theme)
    ensures
        t == spec_detect(apps_use_light_theme),
{
    if apps_use_light_theme == 0 { Theme::Dark } else { Theme::Light }
}

/// The code to store for a theme setting ("dark", "light" or "auto").
pub fn init(setting: &str, apps_use_light_theme: u32) -> (code: u8)
    ensures
        code == theme_code(spec_setting_theme(setting@, spec_detect(apps_use_light_theme))),
{
    let t = if str_equals(setting, "dark") {
        Theme::Dark
    } else if str_equals(setting, "light") {
        Theme::Light
    } else {
        detect(apps_use_light_theme)
    };
    set(t)
}

/// The theme a stored code stands for.
pub fn current(stored: u8) -> (t: Theme)
    ensures
        t == theme_of_code(stored),
{
    if stored == DARK_U { Theme::Dark } else { Theme::Light }
}

/// The code to store when switching to `t`.
pub fn set(t: Theme) -> (code: u8)
    ensures
        code == theme_code(t),
{
    if t == Theme::Dark { DARK_U } else { LIGHT_U }
}

/// Whether the system (not the app's own setting) is in dark mode.
pub fn system_is_dark(apps_use_light_theme: u32) -> (b: bool)
    ensures
        b == (spec_detect(apps_use_light_theme) == Theme::Dark),
{
    detect(apps_use_light_theme) == Theme::Dark
}

/// The mode to force just before a popup menu is shown, so that the menu
/// matches the window it belongs to.
pub fn menu_mode(dark: bool) -> (m: AppMode)
    ensures
        m == (if dark { AppMode::ForceDark } else { AppMode::ForceLight }),
{
    if dark { AppMode::ForceDark } else { AppMode::ForceLight }
}

/// The mode to return to once a popup menu has closed: let the system decide.
pub fn restore_after_menu() -> (m: AppMode)
    ensures
        m == AppMode::AllowDark,
{
    AppMode::AllowDark
}

/// The colours of a theme.
pub fn colors(t: Theme) -> (c: ThemeColors)
    ensures
        c == spec_colors(t),
{
    match t {
        Theme::Light => ThemeColors {
            toolbar_bg: 0x00F0F0F0,
            tab_bar_bg: 0x00D8D8D8,
            tab_active: 0x00F0F0F0,
            tab_inactive: 0x00C8C8C8,
            tab_text_active: 0x00101010,
            tab_text_inactive: 0x00505050,
            tab_close_btn: 0x00707070,
            btn_icon: 0x00404040,
            canvas_bg: 0x00B0B0B0,
            tooltip_bg: 0x00E1FFFF,
            red_dot: 0x000000CC,
        },
        Theme::Dark => ThemeColors {
            toolbar_bg: 0x002D2D2D,
            tab_bar_bg: 0x001E1E1E,
            tab_active: 0x003D3D3D,
            tab_inactive: 0x00282828,
            tab_text_active: 0x00E4E4E4,
            tab_text_inactive: 0x00909090,
            tab_close_btn: 0x00A0A0A0,
            btn_icon: 0x00C4C4C4,
            canvas_bg: 0x003C3C3C,
            tooltip_bg: 0x003A3A3A,
            red_dot: 0x004040FF,
        },
    }
}

/// Switching to a theme and then reading the theme in force gives back that theme.
pub proof fn lemma_set_then_current(t: Theme)
    ensures
        theme_of_code(theme_code(t)) == t,
{
}

} // verus!
