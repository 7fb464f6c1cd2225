pub mod file;
pub mod clipboard;
