//! The compositor: draws every top-level region into disjoint viewports of
//! one fresh frame per render tick, then records where the terminal cursor
//! belongs.

use vstd::prelude::*;
use crate::context::RenderingContext;
use crate::frame::{Cell, Frame};
use crate::geometry::Rect;
use crate::mode::Mode;
use crate::geometry::Point;
use crate::palette::CommandPalette;
use crate::pane_view::{cursor_screen_col, cursor_screen_row, PaneManagerView};
use crate::prompt::PromptType;
use crate::status_bar::StatusBar;
use crate::theme::HighlightGroup;
use crate::viewport::Viewport;

verus! {

/// Where each top-level region goes for one tick of the given size.
#[derive(Debug, Clone, PartialEq, Eq, Structural)]
pub struct Layout {
    pub width: usize,
    pub height: usize,
    pub pane_manager: Rect,
    pub status_bar: Rect,
    pub prompt: Option<Rect>,
    pub command_palette: Option<Rect>,
}

impl Layout {
    /// Calculates the layout: the pane area above a status bar of the
    /// given height, a one-row prompt above the status bar when one is
    /// open, and the palette over the pane area in command mode.
    pub fn calculate(
        width: usize,
        height: usize,
        status_bar_height: usize,
        has_prompt: bool,
        mode: Mode,
    ) -> (l: Layout)
        ensures
            l.width == width && l.height == height,
            l.pane_manager == (Rect {
                col: 0,
                row: 0,
                width,
                height: if status_bar_height <= height {
                    (height - status_bar_height) as usize
                } else {
                    0
                },
            }),
            l.status_bar == (Rect {
                col: 0,
                row: if height > 0 {
                    (height - 1) as usize
                } else {
                    0
                },
                width,
                height: 1,
            }),
            l.prompt == if has_prompt {
                Some(
                    Rect {
                        col: 0,
                        row: if height >= 2 {
                            (height - 2) as usize
                        } else {
                            0
                        },
                        width,
                        height: 1,
                    },
                )
            } else {
                Option::<Rect>::None
            },
            l.command_palette == if mode == Mode::Command {
                Some(
                    Rect {
                        col: 0,
                        row: 0,
                        width,
                        height: if height > 0 {
                            (height - 1) as usize
                        } else {
                            0
                        },
                    },
                )
            } else {
                Option::<Rect>::None
            },
    {
        let pane_manager = Rect::new(
            0,
            0,
            width,
            if status_bar_height <= height {
                height - status_bar_height
            } else {
                0
            },
        );
        let status_bar = Rect::new(
            0,
            if height > 0 {
                height - 1
            } else {
                0
            },
            width,
            1,
        );
        let prompt = if has_prompt {
            Some(
                Rect::new(
                    0,
                    if height >= 2 {
                        height - 2
                    } else {
                        0
                    },
                    width,
                    1,
                ),
            )
        } else {
            None
        };
        let command_palette = if mode == Mode::Command {
            Some(
                Rect::new(
                    0,
                    0,
                    width,
                    if height > 0 {
                        height - 1
                    } else {
                        0
                    },
                ),
            )
        } else {
            None
        };
        Layout { width, height, pane_manager, status_bar, prompt, command_palette }
    }
}

/// Draws all top-level regions into one frame per tick: the background,
/// the panes, the status bar, and the open prompt or the command palette
/// on top.
#[derive(Debug)]
pub struct Compositor {
    pane_manager_view: PaneManagerView,
    status_bar: StatusBar,
}

impl Compositor {
    /// The per-pane view state the compositor keeps between ticks.
    pub closed spec fn spec_view(&self) -> PaneManagerView {
        self.pane_manager_view
    }

    /// The height of the compositor's status bar.
    pub closed spec fn spec_bar_height(&self) -> usize {
        self.status_bar.spec_height()
    }

    pub fn new() -> (c: Compositor)
        ensures
            c.spec_view().pane_views@.len() == 0,
            c.spec_bar_height() == 1,
    {
        Compositor { pane_manager_view: PaneManagerView::default(), status_bar:
        StatusBar::default() }
    }

    /// Sets the transient status message shown in the bar.
    pub fn set_message(&mut self, message: crate::status_bar::Message)
        ensures
            final(self).spec_view() == old(self).spec_view(),
    {
        self.status_bar.set_message(message);
    }

    /// Clears the status message once it has outlived its duration, given
    /// the milliseconds elapsed since it was set.
    pub fn update_message(&mut self, elapsed_ms: u64)
        ensures
            final(self).spec_view() == old(self).spec_view(),
    {
        self.status_bar.update(elapsed_ms);
    }

    /// Composes one frame: background fill, panes, status bar, and then
    /// either the open prompt or, in command mode, the palette; finally
    /// the active pane's cursor position goes on the frame.
    pub fn compose_frame(
        &mut self,
        ctx: &RenderingContext,
        prompt: Option<&PromptType>,
        palette: &CommandPalette,
    ) -> (frame: Frame)
        requires
            ctx.editor_view.width * ctx.editor_view.height <= usize::MAX,
            ctx.theme.groups@.len() < usize::MAX,
        ensures
            frame.wf(),
            frame.spec_width() == ctx.editor_view.width,
            frame.spec_height() == ctx.editor_view.height,
            ctx.pane_manager.panes_view().len() == 0 ==> frame.spec_cursor() is None,
            final(self).spec_bar_height() == old(self).spec_bar_height(),
            final(self).spec_view().pane_views@.len() == ctx.pane_manager.panes_view().len(),
            final(self).spec_view().rect == (Rect {
                col: 0,
                row: 0,
                width: ctx.editor_view.width,
                height: if old(self).spec_bar_height() <= ctx.editor_view.height {
                    (ctx.editor_view.height - old(self).spec_bar_height()) as usize
                } else {
                    0
                },
            }),
            ({
                let n = ctx.pane_manager.panes_view().len();
                let active = ctx.pane_manager.spec_active() as int;
                let views = final(self).spec_view().pane_views@;
                let outer = final(self).spec_view().rect;
                n > 0 && active < n && active < views.len() ==> ({
                    let view = views[active];
                    let cursor = ctx.pane_manager.panes_view()[active].cursor;
                    (cursor.col + view.gutter.spec_width() <= usize::MAX
                        && cursor_screen_col(view, cursor, outer) <= usize::MAX
                        && cursor_screen_row(view, cursor, outer) <= usize::MAX)
                        ==> frame.spec_cursor() == Some(
                        Point {
                            col: cursor_screen_col(view, cursor, outer) as usize,
                            row: cursor_screen_row(view, cursor, outer) as usize,
                        },
                    )
                })
            }),
    {
        let width = ctx.editor_view.width;
        let height = ctx.editor_view.height;
        let mut frame = Frame::new(width, height);
        let whole = Viewport::new(Rect::new(0, 0, width, height));
        let base_group = HighlightGroup::new("ui");
        let base_style = ctx.theme.resolve(&base_group);
        whole.fill(&mut frame, Cell::new(' ').with_style(base_style));

        let has_prompt = match &prompt {
            Some(_) => true,
            None => false,
        };
        let layout = Layout::calculate(
            width,
            height,
            self.status_bar.height(),
            has_prompt,
            ctx.mode,
        );

        match whole.sub_rect(layout.pane_manager) {
            Some(pane_area) => {
                self.pane_manager_view.render(&mut frame, ctx, &pane_area);
            },
            None => {},
        }

        if ctx.pane_manager.num_panes() > 0 {
            let active_index = ctx.pane_manager.active_pane();
            if active_index < ctx.pane_manager.num_panes() {
                let pane = ctx.pane_manager.active();
                let buffer_index = ctx.buffer_manager.index_of(pane.buffer_id());
                match buffer_index {
                    Some(at) => {
                        let entry = ctx.buffer_manager.entry(at);
                        match whole.sub_rect(layout.status_bar) {
                            Some(bar_area) => {
                                if pane.cursor.row() < usize::MAX && pane.cursor.col()
                                    < usize::MAX {
                                    self.status_bar.render(
                                        &mut frame,
                                        ctx,
                                        &pane,
                                        &entry.buffer,
                                        &bar_area,
                                    );
                                }
                            },
                            None => {},
                        }
                    },
                    None => {},
                }
            }
        }

        match &prompt {
            Some(p) => {
                match &layout.prompt {
                    Some(prompt_rect) => {
                        match whole.sub_rect(*prompt_rect) {
                            Some(prompt_area) => {
                                p.render(&mut frame, ctx, &prompt_area);
                            },
                            None => {},
                        }
                    },
                    None => {},
                }
            },
            None => {
                match &layout.command_palette {
                    Some(palette_rect) => {
                        match whole.sub_rect(*palette_rect) {
                            Some(palette_area) => {
                                palette.render(&mut frame, ctx, &palette_area);
                            },
                            None => {},
                        }
                    },
                    None => {},
                }
            },
        }

        if ctx.pane_manager.num_panes() > 0 && ctx.pane_manager.active_pane()
            < ctx.pane_manager.num_panes() && ctx.pane_manager.active_pane()
            < self.pane_manager_view.pane_views.len() {
            let pane = ctx.pane_manager.active();
            let view_rect = self.pane_manager_view.rect;
            let view = &self.pane_manager_view.pane_views[ctx.pane_manager.active_pane()];
            let gutter_fits = pane.cursor.col() <= usize::MAX - view.gutter.width();
            if gutter_fits {
                let local_col = if pane.cursor.col() >= view.col_offset {
                    pane.cursor.col() - view.col_offset
                } else {
                    0
                };
                let local_row = if pane.cursor.row() >= view.row_offset {
                    pane.cursor.row() - view.row_offset
                } else {
                    0
                };
                let col_fits = local_col <= usize::MAX - view.gutter.width() && local_col
                    + view.gutter.width() <= usize::MAX - view.rect.col && local_col
                    + view.gutter.width() + view.rect.col <= usize::MAX - view_rect.col;
                let row_fits = local_row <= usize::MAX - view.rect.row && local_row
                    + view.rect.row <= usize::MAX - view_rect.row;
                if col_fits && row_fits {
                    let position =
                        self.pane_manager_view.get_active_cursor_screen_position(
                        &ctx.pane_manager,
                    );
                    frame.set_cursor_position(position);
                }
            }
        }
        frame
    }
}

} // verus!
