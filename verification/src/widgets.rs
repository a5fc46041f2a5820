//! State and decision logic of the program's custom widgets.

pub mod color_picker;
pub mod file_browser;
pub mod text_box;
