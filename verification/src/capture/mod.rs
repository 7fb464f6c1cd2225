pub mod overlay;
pub mod screen;
pub mod capturer;
