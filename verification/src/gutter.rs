//! The gutter: the line-number column at the left edge of a pane.

use vstd::prelude::*;
use crate::buffer::Buffer;
use crate::chars;
use crate::frame::{Cell, Frame};
use crate::pane::Pane;
use crate::style::{merged, Style};
use crate::text::Alignment;
use crate::theme::{resolve_chain, HighlightGroup, Theme};
use crate::viewport::Viewport;
use crate::widget::{framed_text_cells, ContainerBuilder, Widget};
use crate::text::Span;

verus! {

/// The label shown on a gutter row: the one-based number of the buffer row
/// it shows, nothing past the end of the buffer.
pub open spec fn line_label(lines: int, row_offset: usize, k: int) -> Seq<char> {
    let pane_row = if row_offset + k > usize::MAX {
        usize::MAX as int
    } else {
        row_offset + k
    };
    if pane_row < lines {
        chars::spec_decimal(
            if pane_row < usize::MAX {
                (pane_row + 1) as nat
            } else {
                usize::MAX as nat
            },
        )
    } else if lines > 0 && pane_row == lines - 1 {
        seq!['~']
    } else {
        Seq::empty()
    }
}

/// The style of a gutter row: the cursor's row stands out.
pub open spec fn gutter_row_style(
    theme: &Theme,
    cursor_row: usize,
    row_offset: usize,
    k: int,
) -> Style {
    let pane_row = if row_offset + k > usize::MAX {
        usize::MAX as int
    } else {
        row_offset + k
    };
    if cursor_row == pane_row {
        resolve_chain(
            theme.groups@,
            "ui.pane.gutter.cursor"@,
            Style::unset(),
            (theme.groups@.len() + 1) as nat,
        )
    } else {
        resolve_chain(
            theme.groups@,
            "ui.pane.gutter"@,
            Style::unset(),
            (theme.groups@.len() + 1) as nat,
        )
    }
}

/// The cells of one gutter row: its label, centered over the gutter's
/// width in the row's style.
pub open spec fn gutter_row_cells(
    theme: &Theme,
    cursor_row: usize,
    lines: int,
    row_offset: usize,
    width: int,
    k: int,
) -> Seq<Cell> {
    framed_text_cells(
        line_label(lines, row_offset, k),
        width,
        gutter_row_style(theme, cursor_row, row_offset, k),
        Alignment::Center,
    )
}

/// The columns the gutter reserves beyond the line-number digits.
pub open spec fn gutter_padding() -> int {
    4
}

/// The line-number column of a pane.
#[derive(Debug, Clone, Copy)]
pub struct Gutter {
    width: usize,
}

impl Default for Gutter {
    /// A gutter at the minimum width.
    fn default() -> (g: Gutter)
        ensures
            g.spec_width() == gutter_padding(),
    {
        Gutter { width: 4 }
    }
}

impl Gutter {
    pub closed spec fn spec_width(&self) -> usize {
        self.width
    }

    pub fn new(width: usize) -> (g: Gutter)
        ensures
            g.spec_width() == width,
    {
        Gutter { width }
    }

    /// Returns the width of the gutter.
    pub fn width(&self) -> (w: usize)
        ensures
            w == self.spec_width(),
    {
        self.width
    }

    /// Widens the gutter when the buffer's line count needs more digits
    /// than it currently fits; it never narrows.
    pub fn update_width(&mut self, buffer_lines: usize)
        requires
            chars::spec_decimal(buffer_lines as nat).len() + gutter_padding() <= usize::MAX,
        ensures
            final(self).spec_width() == if old(self).spec_width() >= chars::spec_decimal(
                buffer_lines as nat,
            ).len() + gutter_padding() {
                old(self).spec_width() as int
            } else {
                chars::spec_decimal(buffer_lines as nat).len() + gutter_padding()
            },
    {
        let digits = chars::decimal_chars(buffer_lines);
        let needed = digits.len() + 4;
        if needed > self.width {
            self.width = needed;
        }
    }

    /// Renders the gutter: one centered line number per visible row, the
    /// cursor's row in the cursor highlight, rows past the end of the
    /// buffer blank. Each viewport row holds exactly its row's cells,
    /// merged over what was there; everything else is untouched.
    pub fn render(
        &self,
        frame: &mut Frame,
        theme: &Theme,
        pane: &Pane,
        buffer: &Buffer,
        row_offset: usize,
        viewport: &Viewport,
    )
        requires
            old(frame).wf(),
            theme.groups@.len() < usize::MAX,
        ensures
            final(frame).wf(),
            final(frame).spec_width() == old(frame).spec_width(),
            final(frame).spec_height() == old(frame).spec_height(),
            final(frame).spec_cursor() == old(frame).spec_cursor(),
            forall|c: int, rr: int|
                0 <= c < old(frame).spec_width() && 0 <= rr < old(frame).spec_height()
                    ==> #[trigger] final(frame).cell_at(c, rr) == ({
                    let k = rr - viewport.spec_rect().row;
                    let cells = gutter_row_cells(
                        theme,
                        pane.cursor.row,
                        buffer.rows_view().len() as int,
                        row_offset,
                        viewport.spec_rect().width as int,
                        k,
                    );
                    if 0 <= k && viewport.covers(0, k, cells.len() as int, c, rr) {
                        Cell {
                            ch: cells[c - viewport.spec_rect().col].ch,
                            style: merged(
                                cells[c - viewport.spec_rect().col].style,
                                old(frame).cell_at(c, rr).style,
                            ),
                        }
                    } else {
                        old(frame).cell_at(c, rr)
                    }
                }),
    {
        let cursor_row = pane.cursor_position().1;
        let buffer_lines = buffer.num_lines();
        let height = viewport.height();
        let ghost lines = buffer.rows_view().len() as int;
        let ghost vrect = viewport.spec_rect();
        let mut row: usize = 0;
        while row < height
            invariant
                row <= height,
                height == vrect.height,
                vrect == viewport.spec_rect(),
                lines == buffer.rows_view().len(),
                buffer_lines == lines,
                cursor_row == pane.cursor.row,
                theme.groups@.len() < usize::MAX,
                frame.wf(),
                frame.spec_width() == old(frame).spec_width(),
                frame.spec_height() == old(frame).spec_height(),
                frame.spec_cursor() == old(frame).spec_cursor(),
                forall|c: int, rr: int|
                    0 <= c < old(frame).spec_width() && 0 <= rr < old(frame).spec_height()
                        ==> #[trigger] frame.cell_at(c, rr) == ({
                        let k = rr - vrect.row;
                        let cells = gutter_row_cells(
                            theme,
                            pane.cursor.row,
                            lines,
                            row_offset,
                            vrect.width as int,
                            k,
                        );
                        if 0 <= k < row && viewport.covers(0, k, cells.len() as int, c, rr) {
                            Cell {
                                ch: cells[c - vrect.col].ch,
                                style: merged(
                                    cells[c - vrect.col].style,
                                    old(frame).cell_at(c, rr).style,
                                ),
                            }
                        } else {
                            old(frame).cell_at(c, rr)
                        }
                    }),
            decreases height - row,
        {
            let pane_row = row_offset.saturating_add(row);
            let line_number: Vec<char> = if pane_row < buffer_lines {
                chars::decimal_chars(pane_row.saturating_add(1))
            } else if buffer_lines > 0 && pane_row == buffer_lines - 1 {
                let mut marker: Vec<char> = Vec::new();
                marker.push('~');
                marker
            } else {
                Vec::new()
            };
            proof {
                assert(line_number@ =~= line_label(lines, row_offset, row as int));
            }
            let group = if cursor_row == pane_row {
                HighlightGroup::new("ui.pane.gutter.cursor")
            } else {
                HighlightGroup::new("ui.pane.gutter")
            };
            let style = theme.resolve(&group);
            proof {
                assert(style == gutter_row_style(theme, pane.cursor.row, row_offset, row as int));
            }
            let text = chars::string_of(line_number.as_slice());
            let span = Span::new(text.as_str());
            let widget = ContainerBuilder::default().with_width(
                Some(viewport.width()),
            ).with_child(Widget::Text(span)).with_alignment(Alignment::Center).with_style(
                style,
            ).build();
            proof {
                crate::widget::lemma_fixed_container_len(
                    widget.children@,
                    vrect.width,
                    style,
                    Alignment::Center,
                );
                assert(widget.children@ =~= seq![Widget::Text(span)]);
                crate::widget::lemma_single_text_layout(
                    span,
                    vrect.width,
                    style,
                    Alignment::Center,
                );
                assert(widget.spec_cells() == gutter_row_cells(
                    theme,
                    pane.cursor.row,
                    lines,
                    row_offset,
                    vrect.width as int,
                    row as int,
                ));
            }
            let ghost pre = *frame;
            viewport.put_widget(frame, row, &widget);
            proof {
                assert forall|c: int, rr: int|
                    0 <= c < old(frame).spec_width() && 0 <= rr
                        < old(frame).spec_height() implies #[trigger] frame.cell_at(c, rr) == ({
                    let k = rr - vrect.row;
                    let cells = gutter_row_cells(
                        theme,
                        pane.cursor.row,
                        lines,
                        row_offset,
                        vrect.width as int,
                        k,
                    );
                    if 0 <= k < row + 1 && viewport.covers(0, k, cells.len() as int, c, rr) {
                        Cell {
                            ch: cells[c - vrect.col].ch,
                            style: merged(
                                cells[c - vrect.col].style,
                                old(frame).cell_at(c, rr).style,
                            ),
                        }
                    } else {
                        old(frame).cell_at(c, rr)
                    }
                }) by {
                    let k = rr - vrect.row;
                    let own = gutter_row_cells(
                        theme,
                        pane.cursor.row,
                        lines,
                        row_offset,
                        vrect.width as int,
                        row as int,
                    );
                    if viewport.covers(0, row as int, own.len() as int, c, rr) {
                        assert(k == row);
                        assert(pre.cell_at(c, rr) == old(frame).cell_at(c, rr));
                    } else {
                        assert(frame.cell_at(c, rr) == pre.cell_at(c, rr));
                    }
                }
            }
            row = row + 1;
        }
        proof {
            assert forall|c: int, rr: int|
                0 <= c < old(frame).spec_width() && 0 <= rr
                    < old(frame).spec_height() implies #[trigger] frame.cell_at(c, rr) == ({
                let k = rr - viewport.spec_rect().row;
                let cells = gutter_row_cells(
                    theme,
                    pane.cursor.row,
                    buffer.rows_view().len() as int,
                    row_offset,
                    viewport.spec_rect().width as int,
                    k,
                );
                if 0 <= k && viewport.covers(0, k, cells.len() as int, c, rr) {
                    Cell {
                        ch: cells[c - viewport.spec_rect().col].ch,
                        style: merged(
                            cells[c - viewport.spec_rect().col].style,
                            old(frame).cell_at(c, rr).style,
                        ),
                    }
                } else {
                    old(frame).cell_at(c, rr)
                }
            }) by {
                let k = rr - vrect.row;
                if 0 <= k {
                    let cells = gutter_row_cells(
                        theme,
                        pane.cursor.row,
                        lines,
                        row_offset,
                        vrect.width as int,
                        k,
                    );
                    if viewport.covers(0, k, cells.len() as int, c, rr) {
                        assert(k < height);
                    }
                }
            }
        }
    }
}

} // verus!
