//! The view side of panes: per-pane scroll state, the bar layout that
//! divides the screen among panes, and the view over the whole pane list.

use vstd::prelude::*;
use crate::buffer::Buffer;
use crate::buffer_manager::first_index_with_id;
use crate::chars;
use crate::frame::Cell;
use crate::context::RenderingContext;
use crate::cursor::Cursor;
use crate::frame::Frame;
use crate::geometry::{Point, Rect};
use crate::gutter::Gutter;
use crate::pane::Pane;
use crate::pane_manager::PaneManager;
use crate::style::{merged, Style};
use crate::text::{Alignment, Span};
use crate::theme::{resolve_chain, HighlightGroup, Theme};
use crate::viewport::{rect_covers, Viewport};
use crate::widget::{framed_text_cells, ContainerBuilder, Widget};

verus! {

/// A basic pane layout that organizes panes into equally-sized bars.
#[derive(Debug, Clone)]
pub struct BarsLayout {
    pub rects: Vec<Rect>,
}

impl BarsLayout {
    /// Calculates the layout: the rect divided into one near-equal
    /// vertical bar per pane.
    pub fn calculate_layout(num_panes: usize, rect: Rect) -> (l: BarsLayout)
        requires
            rect.col + rect.width <= usize::MAX,
        ensures
            l.rects@.len() == num_panes,
            forall|i: int|
                0 <= i < num_panes ==> #[trigger] l.rects@[i] == (Rect {
                    col: (rect.col + Rect::part_start(
                        rect.width as int,
                        num_panes as int,
                        i,
                    )) as usize,
                    row: rect.row,
                    width: Rect::part_size(rect.width as int, num_panes as int, i) as usize,
                    height: rect.height,
                }),
    {
        BarsLayout { rects: rect.split_vertically_n(num_panes) }
    }
}

/// The vertical scroll target that keeps the cursor visible: the offset is
/// pulled up to the cursor's row, or down so the cursor sits on the last
/// visible row.
pub open spec fn scrolled_offset(offset: int, pos: int, size: int) -> int {
    if pos < offset {
        pos
    } else if pos >= offset + size {
        pos + 1 - size
    } else {
        offset
    }
}

/// The cells of one text row of a pane: the visible window of the buffer
/// row in the pane highlight, laid out over the text area's width.
pub open spec fn pane_row_cells(
    view: PaneView,
    buffer: &Buffer,
    theme: &Theme,
    text_width: int,
    k: int,
) -> Seq<crate::frame::Cell> {
    let text = if view.row_offset + k < buffer.rows_view().len() {
        chars::window(
            buffer.line(view.row_offset + k),
            view.col_offset as int,
            view.width as int,
        )
    } else {
        Seq::empty()
    };
    framed_text_cells(
        text,
        text_width,
        resolve_chain(theme.groups@, "ui.pane"@, Style::unset(), (theme.groups@.len() + 1) as nat),
        Alignment::Left,
    )
}

/// One pane's view state: its screen rectangle, gutter and scroll offsets.
#[derive(Debug, Clone, Copy)]
pub struct PaneView {
    /// The screen rectangle of the pane.
    pub rect: Rect,
    /// The gutter of the pane.
    pub gutter: Gutter,
    /// The column offset of the view.
    pub col_offset: usize,
    /// The row offset of the view.
    pub row_offset: usize,
    /// The width of the text area, after the gutter.
    pub width: usize,
    /// The height of the text area.
    pub height: usize,
}

impl Default for PaneView {
    /// An unplaced pane view with no scroll.
    fn default() -> (v: PaneView)
        ensures
            v.rect == (Rect { col: 0, row: 0, width: 0, height: 0 }),
            v.col_offset == 0 && v.row_offset == 0 && v.width == 0 && v.height == 0,
    {
        PaneView {
            rect: Rect { col: 0, row: 0, width: 0, height: 0 },
            gutter: Gutter::default(),
            col_offset: 0,
            row_offset: 0,
            width: 0,
            height: 0,
        }
    }
}

impl PaneView {
    /// Scrolls the view so the cursor is visible; returns `true` when it
    /// scrolled.
    pub fn scroll_to_cursor(&mut self, cursor: &Cursor) -> (scrolled: bool)
        requires
            cursor.row < usize::MAX,
            cursor.col < usize::MAX,
        ensures
            final(self).row_offset == scrolled_offset(
                old(self).row_offset as int,
                cursor.row as int,
                old(self).height as int,
            ),
            final(self).col_offset == scrolled_offset(
                old(self).col_offset as int,
                cursor.col as int,
                old(self).width as int,
            ),
            final(self).rect == old(self).rect && final(self).gutter == old(self).gutter,
            final(self).width == old(self).width && final(self).height == old(self).height,
            scrolled == !(final(self).row_offset == old(self).row_offset && final(self).col_offset
                == old(self).col_offset),
    {
        let mut scrolled = false;
        let row = cursor.row();
        if row < self.row_offset {
            self.row_offset = row;
            scrolled = true;
        } else if row >= self.row_offset.saturating_add(self.height) {
            self.row_offset = row + 1 - self.height;
            scrolled = true;
        }
        let col = cursor.col();
        if col < self.col_offset {
            self.col_offset = col;
            scrolled = true;
        } else if col >= self.col_offset.saturating_add(self.width) {
            self.col_offset = col + 1 - self.width;
            scrolled = true;
        }
        scrolled
    }

    /// Scrolls the view vertically by the given signed amount, saturating
    /// at the ends.
    pub fn scroll_vertically(&mut self, offset: isize)
        ensures
            final(self).rect == old(self).rect && final(self).gutter == old(self).gutter,
            final(self).width == old(self).width && final(self).height == old(self).height,
            final(self).col_offset == old(self).col_offset,
            offset >= 0 ==> final(self).row_offset == if old(self).row_offset + offset
                <= usize::MAX {
                old(self).row_offset + offset
            } else {
                usize::MAX as int
            },
            offset < 0 ==> final(self).row_offset == if old(self).row_offset + offset >= 0 {
                old(self).row_offset + offset
            } else {
                0
            },
    {
        if offset >= 0 {
            self.row_offset = self.row_offset.saturating_add(offset as usize);
        } else {
            let magnitude = ((-(offset + 1)) as usize) + 1;
            self.row_offset = self.row_offset.saturating_sub(magnitude);
        }
    }

    /// Resizes the view to the given screen rectangle; the text area is
    /// what remains right of the gutter.
    pub fn update_size(&mut self, rect: Rect)
        ensures
            final(self).rect == rect,
            final(self).gutter == old(self).gutter,
            final(self).col_offset == old(self).col_offset,
            final(self).row_offset == old(self).row_offset,
            final(self).width == if old(self).gutter.spec_width() <= rect.width {
                rect.width - old(self).gutter.spec_width()
            } else {
                0int
            },
            final(self).height == rect.height,
    {
        let gutter_width = self.gutter.width();
        self.rect = rect;
        self.width = if gutter_width <= rect.width {
            rect.width - gutter_width
        } else {
            0
        };
        self.height = rect.height;
    }

    /// Return the width of the text area.
    pub fn width(&self) -> (w: usize)
        ensures
            w == self.width,
    {
        self.width
    }

    /// Return the height of the text area.
    pub fn height(&self) -> (h: usize)
        ensures
            h == self.height,
    {
        self.height
    }

    /// Maps a buffer coordinate to a position relative to the pane: the
    /// scroll offsets come off and the gutter width goes on.
    pub fn coord_to_screen(&self, p: Point) -> (r: Point)
        requires
            p.col + self.gutter.spec_width() <= usize::MAX,
        ensures
            r.col == (if p.col >= self.col_offset {
                p.col - self.col_offset
            } else {
                0int
            }) + self.gutter.spec_width(),
            r.row == if p.row >= self.row_offset {
                p.row - self.row_offset
            } else {
                0int
            },
    {
        let col = p.col.saturating_sub(self.col_offset) + self.gutter.width();
        let row = p.row.saturating_sub(self.row_offset);
        Point { col, row }
    }

    /// The visible window of each screen row: the buffer row's visible
    /// slice, or an empty line past the end of the buffer.
    pub fn visible_rows(&self, buffer: &Buffer) -> (rows: Vec<String>)
        ensures
            rows@.len() == self.height,
            forall|i: int|
                0 <= i < self.height ==> (#[trigger] rows@[i])@ == if (self.row_offset + i
                    < buffer.rows_view().len()) {
                    chars::window(
                        buffer.line(self.row_offset + i),
                        self.col_offset as int,
                        self.width as int,
                    )
                } else {
                    Seq::<char>::empty()
                },
    {
        let n = buffer.num_lines();
        let mut rows: Vec<String> = Vec::new();
        let mut i: usize = 0;
        while i < self.height
            invariant
                i <= self.height,
                n == buffer.rows_view().len(),
                rows@.len() == i,
                forall|k: int|
                    0 <= k < i ==> (#[trigger] rows@[k])@ == if (self.row_offset + k
                        < buffer.rows_view().len()) {
                        chars::window(
                            buffer.line(self.row_offset + k),
                            self.col_offset as int,
                            self.width as int,
                        )
                    } else {
                        Seq::<char>::empty()
                    },
            decreases self.height - i,
        {
            let buffer_row = self.row_offset.saturating_add(i);
            let content = match buffer.row(buffer_row) {
                Some(r) => r.chars_in_range(self.col_offset, self.width),
                None => String::new(),
            };
            proof {
                if (self.row_offset + (i as int) >= usize::MAX) && (self.row_offset + (
                i as int) < buffer.rows_view().len()) {
                    assert(buffer_row == usize::MAX);
                }
            }
            rows.push(content);
            i = i + 1;
        }
        rows
    }

    /// Renders the pane: first the view scrolls so the cursor stays
    /// visible and the gutter widens to the line count, then the gutter
    /// fills the left columns and each visible buffer row fills its text
    /// row beside it; everything else in the frame is untouched.
    pub fn render(
        &mut self,
        frame: &mut Frame,
        ctx: &RenderingContext,
        pane: &Pane,
        buffer: &Buffer,
        viewport: &Viewport,
    )
        requires
            old(frame).wf(),
            ctx.theme.groups@.len() < usize::MAX,
            pane.cursor.row < usize::MAX,
            pane.cursor.col < usize::MAX,
            chars::spec_decimal(buffer.rows_view().len() as nat).len() + 4 <= usize::MAX,
        ensures
            final(frame).wf(),
            final(frame).spec_width() == old(frame).spec_width(),
            final(frame).spec_height() == old(frame).spec_height(),
            final(frame).spec_cursor() == old(frame).spec_cursor(),
            final(self).rect == old(self).rect,
            final(self).width == old(self).width && final(self).height == old(self).height,
            final(self).row_offset == scrolled_offset(
                old(self).row_offset as int,
                pane.cursor.row as int,
                old(self).height as int,
            ),
            final(self).col_offset == scrolled_offset(
                old(self).col_offset as int,
                pane.cursor.col as int,
                old(self).width as int,
            ),
            final(self).gutter.spec_width() == if old(self).gutter.spec_width()
                >= chars::spec_decimal(buffer.rows_view().len() as nat).len() + 4 {
                old(self).gutter.spec_width() as int
            } else {
                chars::spec_decimal(buffer.rows_view().len() as nat).len() + 4int
            },
            ({
                let vrect = viewport.spec_rect();
                let split = if final(self).gutter.spec_width() <= vrect.width {
                    final(self).gutter.spec_width() as int
                } else {
                    vrect.width as int
                };
                let gutter_rect = Rect {
                    col: vrect.col,
                    row: vrect.row,
                    width: split as usize,
                    height: vrect.height,
                };
                let text_rect = Rect {
                    col: (vrect.col + split) as usize,
                    row: vrect.row,
                    width: (vrect.width - split) as usize,
                    height: vrect.height,
                };
                if vrect.col + split <= usize::MAX {
                    forall|c: int, rr: int|
                        0 <= c < old(frame).spec_width() && 0 <= rr < old(frame).spec_height()
                            ==> #[trigger] final(frame).cell_at(c, rr) == ({
                            let k = rr - vrect.row;
                            let g = crate::gutter::gutter_row_cells(
                                &ctx.theme,
                                pane.cursor.row,
                                buffer.rows_view().len() as int,
                                final(self).row_offset,
                                split,
                                k,
                            );
                            let t = pane_row_cells(
                                *final(self),
                                buffer,
                                &ctx.theme,
                                text_rect.width as int,
                                k,
                            );
                            if 0 <= k && rect_covers(gutter_rect, 0, k, g.len() as int, c, rr) {
                                crate::frame::Cell {
                                    ch: g[c - gutter_rect.col].ch,
                                    style: merged(
                                        g[c - gutter_rect.col].style,
                                        old(frame).cell_at(c, rr).style,
                                    ),
                                }
                            } else if 0 <= k < final(self).height && rect_covers(
                                text_rect,
                                0,
                                k,
                                t.len() as int,
                                c,
                                rr,
                            ) {
                                crate::frame::Cell {
                                    ch: t[c - text_rect.col].ch,
                                    style: merged(
                                        t[c - text_rect.col].style,
                                        old(frame).cell_at(c, rr).style,
                                    ),
                                }
                            } else {
                                old(frame).cell_at(c, rr)
                            }
                        })
                } else {
                    forall|c: int, rr: int|
                        0 <= c < old(frame).spec_width() && 0 <= rr < old(frame).spec_height()
                            ==> #[trigger] final(frame).cell_at(c, rr) == old(frame).cell_at(
                            c,
                            rr,
                        )
                }
            }),
    {
        self.scroll_to_cursor(&pane.cursor);
        self.gutter.update_width(buffer.num_lines());
        let split_at = if self.gutter.width() <= viewport.width() {
            self.gutter.width()
        } else {
            viewport.width()
        };
        if viewport.rect().col > usize::MAX - split_at {
            return ;
        }
        let ghost vrect = viewport.spec_rect();
        let ghost lines = buffer.rows_view().len() as int;
        let (gutter_viewport, text_viewport) = viewport.split_horizontally_exact(split_at);
        let ghost gutter_rect = gutter_viewport.spec_rect();
        let ghost text_rect = text_viewport.spec_rect();
        self.gutter.render(frame, &ctx.theme, pane, buffer, self.row_offset, &gutter_viewport);
        let ghost after_gutter = *frame;
        let rows = self.visible_rows(buffer);
        let group = HighlightGroup::new("ui.pane");
        let style = ctx.theme.resolve(&group);
        proof {
            assert(style == resolve_chain(
                ctx.theme.groups@,
                "ui.pane"@,
                Style::unset(),
                (ctx.theme.groups@.len() + 1) as nat,
            ));
        }
        let mut i: usize = 0;
        while i < rows.len()
            invariant
                i <= rows@.len(),
                rows@.len() == self.height,
                lines == buffer.rows_view().len(),
                vrect == viewport.spec_rect(),
                gutter_rect == (Rect {
                    col: vrect.col,
                    row: vrect.row,
                    width: split_at,
                    height: vrect.height,
                }),
                text_rect == text_viewport.spec_rect(),
                text_rect == (Rect {
                    col: (vrect.col + split_at) as usize,
                    row: vrect.row,
                    width: (vrect.width - split_at) as usize,
                    height: vrect.height,
                }),
                split_at <= vrect.width,
                vrect.col + split_at <= usize::MAX,
                split_at == if self.gutter.spec_width() <= vrect.width {
                    self.gutter.spec_width() as int
                } else {
                    vrect.width as int
                },
                style == resolve_chain(
                    ctx.theme.groups@,
                    "ui.pane"@,
                    Style::unset(),
                    (ctx.theme.groups@.len() + 1) as nat,
                ),
                forall|k: int|
                    0 <= k < self.height ==> (#[trigger] rows@[k])@ == (if (self.row_offset + k
                        < buffer.rows_view().len()) {
                        chars::window(
                            buffer.line(self.row_offset + k),
                            self.col_offset as int,
                            self.width as int,
                        )
                    } else {
                        Seq::<char>::empty()
                    }),
                frame.wf(),
                frame.spec_width() == old(frame).spec_width(),
                frame.spec_height() == old(frame).spec_height(),
                frame.spec_cursor() == old(frame).spec_cursor(),
                forall|c: int, rr: int|
                    0 <= c < old(frame).spec_width() && 0 <= rr < old(frame).spec_height()
                        ==> #[trigger] frame.cell_at(c, rr) == ({
                        let k = rr - vrect.row;
                        let g = crate::gutter::gutter_row_cells(
                            &ctx.theme,
                            pane.cursor.row,
                            lines,
                            self.row_offset,
                            split_at as int,
                            k,
                        );
                        let t = pane_row_cells(
                            *self,
                            buffer,
                            &ctx.theme,
                            text_rect.width as int,
                            k,
                        );
                        if 0 <= k && rect_covers(gutter_rect, 0, k, g.len() as int, c, rr) {
                            crate::frame::Cell {
                                ch: g[c - gutter_rect.col].ch,
                                style: merged(
                                    g[c - gutter_rect.col].style,
                                    old(frame).cell_at(c, rr).style,
                                ),
                            }
                        } else if 0 <= k < i && rect_covers(
                            text_rect,
                            0,
                            k,
                            t.len() as int,
                            c,
                            rr,
                        ) {
                            crate::frame::Cell {
                                ch: t[c - text_rect.col].ch,
                                style: merged(
                                    t[c - text_rect.col].style,
                                    old(frame).cell_at(c, rr).style,
                                ),
                            }
                        } else {
                            old(frame).cell_at(c, rr)
                        }
                    }),
            decreases rows@.len() - i,
        {
            let span = Span::new(rows[i].as_str());
            let widget = ContainerBuilder::default().with_width(
                Some(text_viewport.width()),
            ).with_child(Widget::Text(span)).with_style(style).build();
            proof {
                crate::widget::lemma_fixed_container_len(
                    widget.children@,
                    text_rect.width,
                    style,
                    Alignment::Left,
                );
                assert(widget.children@ =~= seq![Widget::Text(span)]);
                crate::widget::lemma_single_text_layout(
                    span,
                    text_rect.width,
                    style,
                    Alignment::Left,
                );
                assert(widget.spec_cells() == pane_row_cells(
                    *self,
                    buffer,
                    &ctx.theme,
                    text_rect.width as int,
                    i as int,
                ));
            }
            let ghost pre = *frame;
            text_viewport.put_widget(frame, i, &widget);
            proof {
                assert forall|c: int, rr: int|
                    0 <= c < old(frame).spec_width() && 0 <= rr
                        < old(frame).spec_height() implies #[trigger] frame.cell_at(c, rr) == ({
                    let k = rr - vrect.row;
                    let g = crate::gutter::gutter_row_cells(
                        &ctx.theme,
                        pane.cursor.row,
                        lines,
                        self.row_offset,
                        split_at as int,
                        k,
                    );
                    let t = pane_row_cells(*self, buffer, &ctx.theme, text_rect.width as int, k);
                    if 0 <= k && rect_covers(gutter_rect, 0, k, g.len() as int, c, rr) {
                        crate::frame::Cell {
                            ch: g[c - gutter_rect.col].ch,
                            style: merged(
                                g[c - gutter_rect.col].style,
                                old(frame).cell_at(c, rr).style,
                            ),
                        }
                    } else if 0 <= k < i + 1 && rect_covers(
                        text_rect,
                        0,
                        k,
                        t.len() as int,
                        c,
                        rr,
                    ) {
                        crate::frame::Cell {
                            ch: t[c - text_rect.col].ch,
                            style: merged(
                                t[c - text_rect.col].style,
                                old(frame).cell_at(c, rr).style,
                            ),
                        }
                    } else {
                        old(frame).cell_at(c, rr)
                    }
                }) by {
                    let own = pane_row_cells(
                        *self,
                        buffer,
                        &ctx.theme,
                        text_rect.width as int,
                        i as int,
                    );
                    if text_viewport.covers(0, i as int, own.len() as int, c, rr) {
                        assert(rr - vrect.row == i);
                        assert(c >= text_rect.col);
                        assert(pre.cell_at(c, rr) == old(frame).cell_at(c, rr));
                    } else {
                        assert(frame.cell_at(c, rr) == pre.cell_at(c, rr));
                    }
                }
            }
            i = i + 1;
        }
        proof {
            assert forall|c: int, rr: int|
                0 <= c < old(frame).spec_width() && 0 <= rr
                    < old(frame).spec_height() implies #[trigger] frame.cell_at(c, rr) == ({
                let k = rr - vrect.row;
                let g = crate::gutter::gutter_row_cells(
                    &ctx.theme,
                    pane.cursor.row,
                    lines,
                    self.row_offset,
                    split_at as int,
                    k,
                );
                let t = pane_row_cells(*self, buffer, &ctx.theme, text_rect.width as int, k);
                if 0 <= k && rect_covers(gutter_rect, 0, k, g.len() as int, c, rr) {
                    crate::frame::Cell {
                        ch: g[c - gutter_rect.col].ch,
                        style: merged(
                            g[c - gutter_rect.col].style,
                            old(frame).cell_at(c, rr).style,
                        ),
                    }
                } else if 0 <= k < self.height && rect_covers(
                    text_rect,
                    0,
                    k,
                    t.len() as int,
                    c,
                    rr,
                ) {
                    crate::frame::Cell {
                        ch: t[c - text_rect.col].ch,
                        style: merged(
                            t[c - text_rect.col].style,
                            old(frame).cell_at(c, rr).style,
                        ),
                    }
                } else {
                    old(frame).cell_at(c, rr)
                }
            }) by {}
        }
    }
}

/// Whether the pane at index `i` gets drawn: its buffer id resolves, its
/// bar lies inside the viewport, and the cursor and gutter arithmetic fit
/// the machine.
pub open spec fn pane_drawn(
    ctx: &RenderingContext,
    views: Seq<PaneView>,
    vrect: Rect,
    i: int,
) -> bool {
    let pane = ctx.pane_manager.panes_view()[i];
    let entries = ctx.buffer_manager.entries();
    let bi = first_index_with_id(entries, pane.buffer_id);
    let bar = views[i].rect;
    &&& bi < entries.len()
    &&& bar.col >= vrect.col && bar.row >= vrect.row
    &&& bar.col + bar.width <= vrect.col + vrect.width
    &&& bar.row + bar.height <= vrect.row + vrect.height
    &&& pane.cursor.row < usize::MAX && pane.cursor.col < usize::MAX
    &&& chars::spec_decimal(entries[bi].buffer.rows_view().len() as nat).len() + 4 <= usize::MAX
}

/// The cell at (c, rr) after one pane renders over `under`: the pane
/// renderer's per-cell result, with `under` standing for what was on the
/// frame before it drew.
pub open spec fn pane_cell_over(
    view: PaneView,
    theme: &Theme,
    pane: Pane,
    buffer: &Buffer,
    bar: Rect,
    c: int,
    rr: int,
    under: Cell,
) -> Cell {
    let split = if view.gutter.spec_width() <= bar.width {
        view.gutter.spec_width() as int
    } else {
        bar.width as int
    };
    let gutter_rect = Rect { col: bar.col, row: bar.row, width: split as usize, height: bar.height };
    let text_rect = Rect {
        col: (bar.col + split) as usize,
        row: bar.row,
        width: (bar.width - split) as usize,
        height: bar.height,
    };
    if bar.col + split <= usize::MAX {
        let k = rr - bar.row;
        let g = crate::gutter::gutter_row_cells(
            theme,
            pane.cursor.row,
            buffer.rows_view().len() as int,
            view.row_offset,
            split,
            k,
        );
        let t = pane_row_cells(view, buffer, theme, text_rect.width as int, k);
        if 0 <= k && rect_covers(gutter_rect, 0, k, g.len() as int, c, rr) {
            Cell {
                ch: g[c - gutter_rect.col].ch,
                style: merged(g[c - gutter_rect.col].style, under.style),
            }
        } else if 0 <= k < view.height && rect_covers(text_rect, 0, k, t.len() as int, c, rr) {
            Cell {
                ch: t[c - text_rect.col].ch,
                style: merged(t[c - text_rect.col].style, under.style),
            }
        } else {
            under
        }
    } else {
        under
    }
}

/// The cell at (c, rr) after the first `upto` panes rendered in order over
/// a frame whose cell there was `base`: each drawn pane's renderer applies
/// over what the previous panes left.
pub open spec fn panes_region_cell(
    ctx: &RenderingContext,
    views: Seq<PaneView>,
    vrect: Rect,
    upto: int,
    c: int,
    rr: int,
    base: Cell,
) -> Cell
    decreases upto,
{
    if upto <= 0 {
        base
    } else {
        let under = panes_region_cell(ctx, views, vrect, upto - 1, c, rr, base);
        if upto - 1 < ctx.pane_manager.panes_view().len() && upto - 1 < views.len() && pane_drawn(
            ctx,
            views,
            vrect,
            upto - 1,
        ) {
            let pane = ctx.pane_manager.panes_view()[upto - 1];
            let entries = ctx.buffer_manager.entries();
            let bi = first_index_with_id(entries, pane.buffer_id);
            pane_cell_over(
                views[upto - 1],
                &ctx.theme,
                pane,
                &entries[bi].buffer,
                views[upto - 1].rect,
                c,
                rr,
                under,
            )
        } else {
            under
        }
    }
}

/// Folding the pane renders reads only the views below `upto`: two view
/// lists that agree there fold alike.
proof fn lemma_region_cell_same_prefix(
    ctx: &RenderingContext,
    a: Seq<PaneView>,
    b: Seq<PaneView>,
    vrect: Rect,
    upto: int,
    c: int,
    rr: int,
    base: Cell,
)
    requires
        0 <= upto,
        upto <= a.len(),
        upto <= b.len(),
        forall|j: int| 0 <= j < upto ==> a[j] == b[j],
    ensures
        panes_region_cell(ctx, a, vrect, upto, c, rr, base) == panes_region_cell(
            ctx,
            b,
            vrect,
            upto,
            c,
            rr,
            base,
        ),
    decreases upto,
{
    if upto > 0 {
        lemma_region_cell_same_prefix(ctx, a, b, vrect, upto - 1, c, rr, base);
    }
}

/// The screen column of a cursor shown through the given view inside the
/// given outer rectangle: its buffer column through the view's scroll and
/// gutter, plus the pane's and the outer rectangle's offsets.
pub open spec fn cursor_screen_col(view: PaneView, cursor: Cursor, outer: Rect) -> int {
    (if cursor.col >= view.col_offset {
        cursor.col - view.col_offset
    } else {
        0int
    }) + view.gutter.spec_width() + view.rect.col + outer.col
}

/// The screen row of a cursor shown through the given view inside the given
/// outer rectangle.
pub open spec fn cursor_screen_row(view: PaneView, cursor: Cursor, outer: Rect) -> int {
    (if cursor.row >= view.row_offset {
        cursor.row - view.row_offset
    } else {
        0int
    }) + view.rect.row + outer.row
}

/// The view over the whole pane list: one `PaneView` per pane, kept in
/// step with the pane manager.
#[derive(Debug, Clone)]
pub struct PaneManagerView {
    /// The screen rectangle of the whole pane area.
    pub rect: Rect,
    /// One view per pane, in pane order.
    pub pane_views: Vec<PaneView>,
}

impl Default for PaneManagerView {
    fn default() -> (v: PaneManagerView)
        ensures
            v.rect == (Rect { col: 0, row: 0, width: 0, height: 0 }),
            v.pane_views@.len() == 0,
    {
        PaneManagerView {
            rect: Rect { col: 0, row: 0, width: 0, height: 0 },
            pane_views: Vec::new(),
        }
    }
}

impl PaneManagerView {
    /// Brings the views in step with the pane manager: one view per pane,
    /// each resized to its bar of the given rectangle.
    pub fn sync_panes(&mut self, manager: &PaneManager, rect: Rect)
        requires
            rect.col + rect.width <= usize::MAX,
        ensures
            final(self).rect == old(self).rect,
            final(self).pane_views@.len() == manager.panes_view().len(),
            forall|i: int|
                0 <= i < manager.panes_view().len() ==> (#[trigger] final(self).pane_views@[i]).rect
                    == (Rect {
                    col: (rect.col + Rect::part_start(
                        rect.width as int,
                        manager.panes_view().len() as int,
                        i,
                    )) as usize,
                    row: rect.row,
                    width: Rect::part_size(
                        rect.width as int,
                        manager.panes_view().len() as int,
                        i,
                    ) as usize,
                    height: rect.height,
                }),
    {
        let num_panes = manager.num_panes();
        while self.pane_views.len() < num_panes
            invariant
                self.rect == old(self).rect,
            decreases num_panes - self.pane_views@.len(),
        {
            self.pane_views.push(PaneView::default());
        }
        while self.pane_views.len() > num_panes
            invariant
                self.rect == old(self).rect,
                self.pane_views@.len() >= num_panes,
            decreases self.pane_views@.len(),
        {
            let _dropped = self.pane_views.pop();
        }
        let layout = BarsLayout::calculate_layout(num_panes, rect);
        let mut i: usize = 0;
        while i < num_panes
            invariant
                i <= num_panes,
                self.rect == old(self).rect,
                self.pane_views@.len() == num_panes,
                layout.rects@.len() == num_panes,
                rect.col + rect.width <= usize::MAX,
                forall|k: int|
                    0 <= k < num_panes ==> #[trigger] layout.rects@[k] == (Rect {
                        col: (rect.col + Rect::part_start(
                            rect.width as int,
                            num_panes as int,
                            k,
                        )) as usize,
                        row: rect.row,
                        width: Rect::part_size(rect.width as int, num_panes as int, k) as usize,
                        height: rect.height,
                    }),
                forall|k: int|
                    0 <= k < i ==> (#[trigger] self.pane_views@[k]).rect == layout.rects@[k],
            decreases num_panes - i,
        {
            let target = layout.rects[i];
            let view = &mut self.pane_views[i];
            view.update_size(target);
            i = i + 1;
        }
    }

    /// Returns the screen position of the active pane's cursor.
    pub fn get_active_cursor_screen_position(&self, manager: &PaneManager) -> (p: Point)
        requires
            manager.panes_view().len() > 0,
            manager.wf(),
            manager.spec_active() < self.pane_views@.len(),
            ({
                let view = self.pane_views@[manager.spec_active() as int];
                let cursor = manager.panes_view()[manager.spec_active() as int].cursor;
                &&& cursor.col + view.gutter.spec_width() <= usize::MAX
                &&& cursor_screen_col(view, cursor, self.rect) <= usize::MAX
                &&& cursor_screen_row(view, cursor, self.rect) <= usize::MAX
            }),
        ensures
            p.col == cursor_screen_col(
                self.pane_views@[manager.spec_active() as int],
                manager.panes_view()[manager.spec_active() as int].cursor,
                self.rect,
            ),
            p.row == cursor_screen_row(
                self.pane_views@[manager.spec_active() as int],
                manager.panes_view()[manager.spec_active() as int].cursor,
                self.rect,
            ),
    {
        let active_index = manager.active_pane();
        let view = &self.pane_views[active_index];
        let (col, row) = manager.active().cursor_position();
        let local = view.coord_to_screen(Point { col, row });
        Point {
            col: local.col + view.rect.col + self.rect.col,
            row: local.row + view.rect.row + self.rect.row,
        }
    }

    /// Renders every pane into its bar of the given viewport: each drawn
    /// pane's gutter and text rows land in its bar, later panes drawing
    /// over what earlier ones left; no cell outside the viewport's
    /// rectangle changes.
    pub fn render(
        &mut self,
        frame: &mut Frame,
        ctx: &RenderingContext,
        viewport: &Viewport,
    )
        requires
            old(frame).wf(),
            ctx.theme.groups@.len() < usize::MAX,
        ensures
            final(frame).wf(),
            final(frame).spec_width() == old(frame).spec_width(),
            final(frame).spec_height() == old(frame).spec_height(),
            final(frame).spec_cursor() == old(frame).spec_cursor(),
            viewport.spec_rect().col + viewport.spec_rect().width <= usize::MAX
                ==> final(self).pane_views@.len() == ctx.pane_manager.panes_view().len(),
            viewport.spec_rect().col + viewport.spec_rect().width <= usize::MAX
                ==> final(self).rect == viewport.spec_rect(),
            viewport.spec_rect().col + viewport.spec_rect().width <= usize::MAX ==> forall|
                c: int,
                rr: int,
            |
                0 <= c < old(frame).spec_width() && 0 <= rr < old(frame).spec_height()
                    ==> #[trigger] final(frame).cell_at(c, rr) == panes_region_cell(
                    ctx,
                    final(self).pane_views@,
                    viewport.spec_rect(),
                    ctx.pane_manager.panes_view().len() as int,
                    c,
                    rr,
                    old(frame).cell_at(c, rr),
                ),
            viewport.spec_rect().col + viewport.spec_rect().width > usize::MAX ==> forall|
                c: int,
                rr: int,
            |
                0 <= c < old(frame).spec_width() && 0 <= rr < old(frame).spec_height()
                    ==> #[trigger] final(frame).cell_at(c, rr) == old(frame).cell_at(c, rr),
            forall|c: int, rr: int|
                0 <= c < old(frame).spec_width() && 0 <= rr < old(frame).spec_height() && !(
                viewport.spec_rect().col <= c < viewport.spec_rect().col
                    + viewport.spec_rect().width && viewport.spec_rect().row <= rr
                    < viewport.spec_rect().row + viewport.spec_rect().height)
                    ==> #[trigger] final(frame).cell_at(c, rr) == old(frame).cell_at(c, rr),
    {
        let rect = viewport.rect();
        if rect.width > usize::MAX - rect.col {
            return ;
        }
        self.rect = rect;
        self.sync_panes(&ctx.pane_manager, rect);
        let ghost vrect = viewport.spec_rect();
        let panes = ctx.pane_manager.iter();
        let n = panes.len();
        let mut i: usize = 0;
        while i < n
            invariant
                i <= n,
                n == ctx.pane_manager.panes_view().len(),
                frame.wf(),
                frame.spec_width() == old(frame).spec_width(),
                frame.spec_height() == old(frame).spec_height(),
                frame.spec_cursor() == old(frame).spec_cursor(),
                self.pane_views@.len() == n,
                self.rect == vrect,
                panes@ == ctx.pane_manager.panes_view(),
                ctx.theme.groups@.len() < usize::MAX,
                vrect == viewport.spec_rect(),
                forall|c: int, rr: int|
                    0 <= c < old(frame).spec_width() && 0 <= rr < old(frame).spec_height()
                        ==> #[trigger] frame.cell_at(c, rr) == panes_region_cell(
                        ctx,
                        self.pane_views@,
                        vrect,
                        i as int,
                        c,
                        rr,
                        old(frame).cell_at(c, rr),
                    ),
                forall|c: int, rr: int|
                    0 <= c < old(frame).spec_width() && 0 <= rr < old(frame).spec_height() && !(
                    vrect.col <= c < vrect.col + vrect.width && vrect.row <= rr < vrect.row
                        + vrect.height) ==> #[trigger] frame.cell_at(c, rr) == old(frame).cell_at(
                        c,
                        rr,
                    ),
            decreases n - i,
        {
            let ghost views_before = self.pane_views@;
            let pane = panes[i];
            let mut drawn_now = false;
            let buffer_index = ctx.buffer_manager.index_of(pane.buffer_id());
            match buffer_index {
                Some(at) => {
                    let entry = ctx.buffer_manager.entry(at);
                    match viewport.sub_rect(self.pane_views[i].rect) {
                        Some(pane_viewport) => {
                            if pane.cursor.row() < usize::MAX && pane.cursor.col() < usize::MAX {
                                let digits = chars::decimal_chars(entry.buffer.num_lines());
                                if digits.len() <= usize::MAX - 4 {
                                    let ghost pre = *frame;
                                    proof {
                                        assert(pane_drawn(ctx, views_before, vrect, i as int));
                                    }
                                    let view = &mut self.pane_views[i];
                                    view.render(frame, ctx, &pane, &entry.buffer, &pane_viewport);
                                    drawn_now = true;
                                    proof {
                                        assert forall|c: int, rr: int|
                                            0 <= c < old(frame).spec_width() && 0 <= rr
                                                < old(frame).spec_height() implies #[trigger] frame
                                            .cell_at(c, rr) == panes_region_cell(
                                            ctx,
                                            self.pane_views@,
                                            vrect,
                                            i + 1,
                                            c,
                                            rr,
                                            old(frame).cell_at(c, rr),
                                        ) by {
                                            lemma_region_cell_same_prefix(
                                                ctx,
                                                views_before,
                                                self.pane_views@,
                                                vrect,
                                                i as int,
                                                c,
                                                rr,
                                                old(frame).cell_at(c, rr),
                                            );
                                            assert(pane_drawn(
                                                ctx,
                                                self.pane_views@,
                                                vrect,
                                                i as int,
                                            ));
                                            assert(frame.cell_at(c, rr) == pane_cell_over(
                                                self.pane_views@[i as int],
                                                &ctx.theme,
                                                pane,
                                                &entry.buffer,
                                                self.pane_views@[i as int].rect,
                                                c,
                                                rr,
                                                pre.cell_at(c, rr),
                                            ));
                                        }
                                        assert forall|c: int, rr: int|
                                            0 <= c < old(frame).spec_width() && 0 <= rr
                                                < old(frame).spec_height() && !(vrect.col <= c
                                                < vrect.col + vrect.width && vrect.row <= rr
                                                < vrect.row
                                                + vrect.height) implies #[trigger] frame.cell_at(
                                            c,
                                            rr,
                                        ) == old(frame).cell_at(c, rr) by {
                                            assert(frame.cell_at(c, rr) == pre.cell_at(c, rr));
                                        }
                                    }
                                }
                            }
                        },
                        None => {},
                    }
                },
                None => {},
            }
            proof {
                if !drawn_now {
                    assert(!pane_drawn(ctx, self.pane_views@, vrect, i as int));
                    assert forall|c: int, rr: int|
                        0 <= c < old(frame).spec_width() && 0 <= rr
                            < old(frame).spec_height() implies #[trigger] frame.cell_at(c, rr)
                        == panes_region_cell(
                        ctx,
                        self.pane_views@,
                        vrect,
                        i + 1,
                        c,
                        rr,
                        old(frame).cell_at(c, rr),
                    ) by {}
                }
            }
            i = i + 1;
        }
    }
}

} // verus!
