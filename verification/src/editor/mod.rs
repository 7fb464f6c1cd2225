pub mod tool;
pub mod canvas;
pub mod window;
pub mod tools;
