//! Verified core of a token and portrait making tool: persistent settings,
//! naming conventions, file-name sanitising, image compositing and the
//! decision logic of the file browser and the frame editor.

pub mod cache;
pub mod data;
pub mod file_browser;
pub mod frame_maker;
pub mod image;
pub mod modifier;
pub mod naming_convention;
pub mod paths;
pub mod persistence;
pub mod status_bar;
pub mod strings;
pub mod style;
pub mod table;
pub mod text;
pub mod token_maker;
pub mod widgets;
pub mod workspace;
