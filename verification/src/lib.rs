//! Core engine of a terminal text editor: line-oriented text storage,
//! cursor and pane tracking over shared buffers, and an incremental
//! cell-grid rendering pipeline.

pub mod buffer;
pub mod buffer_manager;
pub mod chars;
pub mod compositor;
pub mod context;
pub mod cursor;
pub mod frame;
pub mod geometry;
pub mod gutter;
pub mod mode;
pub mod modification;
pub mod palette;
pub mod pane;
pub mod pane_manager;
pub mod pane_view;
pub mod prompt;
pub mod renderer;
pub mod row;
pub mod status_bar;
pub mod style;
pub mod text;
pub mod theme;
pub mod viewport;
pub mod widget;
