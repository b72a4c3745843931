//! The state a render tick reads: a snapshot of everything the compositor
//! and the components need.

use vstd::prelude::*;
use crate::buffer_manager::BufferManager;
use crate::geometry::Rect;
use crate::mode::Mode;
use crate::pane_manager::PaneManager;
use crate::theme::Theme;

verus! {

/// Everything the rendering pipeline reads during one tick.
#[derive(Debug)]
pub struct RenderingContext {
    /// The editor's current mode.
    pub mode: Mode,
    /// The active theme.
    pub theme: Theme,
    /// The panes being shown.
    pub pane_manager: PaneManager,
    /// The buffers the panes look at.
    pub buffer_manager: BufferManager,
    /// The screen area the editor draws into.
    pub editor_view: Rect,
}

} // verus!
