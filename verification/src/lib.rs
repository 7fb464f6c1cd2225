//! ezshot: the decision logic, geometry and pixel work of a tray screenshot
//! tool, verified with Verus. Window-system calls live in the companion app.

pub mod geometry;
pub mod app_state;
pub mod text;
pub mod raster;
pub mod i18n;
pub mod theme;
pub mod event;
pub mod config;
pub mod settings;
pub mod hotkey;
pub mod app;
pub mod tray;
pub mod output;
pub mod clipboard;
pub mod icon;
pub mod menu_icon;
pub mod win32_thread;
pub mod capture;
pub mod editor;
