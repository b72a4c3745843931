//! The status bar and its widgets: mode, file name, transient message and
//! cursor position.

use vstd::prelude::*;
use vstd::string::StringExecFns;
use crate::buffer::Buffer;
use crate::chars;
use crate::context::RenderingContext;
use crate::frame::Frame;
use crate::geometry::{Anchor, Rect};
use crate::mode::Mode;
use crate::pane::Pane;
use crate::style::{merged, FontIntensity, Style};
use crate::text::{Alignment, Span};
use crate::theme::{resolve_chain, HighlightGroup};
use crate::viewport::{rect_covers, Viewport};
use crate::widget::{
    all_padding_groups, container_layout, Container, ContainerBuilder, WhitespaceSeparator,
    Widget,
};

verus! {

/// A transient message with a display duration in milliseconds.
#[derive(Debug, Clone)]
pub struct Message {
    /// The content of the message.
    content: String,
    /// How long the message stays on screen, in milliseconds.
    duration_ms: u64,
}

impl Message {
    /// The content of the message.
    pub closed spec fn spec_content(&self) -> Seq<char> {
        self.content@
    }

    /// How long the message stays on screen, in milliseconds.
    pub closed spec fn spec_duration(&self) -> u64 {
        self.duration_ms
    }

    /// A message shown for the default five seconds.
    pub fn new(content: &str) -> (m: Message)
        ensures
            m.spec_content() == content@,
            m.spec_duration() == 5000,
    {
        Message { content: String::from_str(content), duration_ms: 5000 }
    }

    /// Sets how long the message stays on screen.
    pub fn with_duration(self, duration_ms: u64) -> (m: Message)
        ensures
            m.spec_content() == self.spec_content(),
            m.spec_duration() == duration_ms,
    {
        Message { duration_ms, ..self }
    }

    /// Returns the content of the message.
    pub fn text(&self) -> (s: &str)
        ensures
            s@ == self.spec_content(),
    {
        self.content.as_str()
    }

    /// Returns true if the message has been on screen longer than its
    /// duration, given the milliseconds elapsed since it was set.
    pub fn timed_out(&self, elapsed_ms: u64) -> (r: bool)
        ensures
            r == (elapsed_ms > self.spec_duration()),
    {
        elapsed_ms > self.duration_ms
    }
}

/// The text a message option shows: the content, or nothing.
pub open spec fn shown_message_text(m: Option<Message>) -> Seq<char> {
    match m {
        Some(msg) => msg.spec_content(),
        None => Seq::empty(),
    }
}

/// The one-based `row:col` text of a cursor position.
pub open spec fn position_text(cursor: crate::cursor::Cursor) -> Seq<char> {
    chars::spec_decimal((cursor.row + 1) as nat) + seq![':'] + chars::spec_decimal(
        (cursor.col + 1) as nat,
    )
}

/// The shape of a container holding one bare text span.
pub open spec fn text_group_shape(c: Container, text: Seq<char>, style: Style) -> bool {
    &&& c.width is None
    &&& c.alignment == Alignment::Left
    &&& c.style == style
    &&& c.children@.len() == 1
    &&& (c.children@[0] matches Widget::Text(span) && span.text@ == text && span.width
        == span.text@.len() && span.style == Style::unset() && span.alignment == Alignment::Left)
}

/// The shape of the mode widget: the mode's label between single spaces,
/// in the mode's own highlight.
pub open spec fn mode_widget_shape(c: Container, ctx: &RenderingContext) -> bool {
    &&& c.width is None
    &&& c.alignment == Alignment::Left
    &&& c.style == resolve_chain(
        ctx.theme.groups@,
        match ctx.mode {
            Mode::Insert => "ui.statusbar.mode.insert"@,
            Mode::Command => "ui.statusbar.mode.command"@,
        },
        Style::unset(),
        (ctx.theme.groups@.len() + 1) as nat,
    )
    &&& c.children@.len() == 3
    &&& c.children@[0] == Widget::Space(WhitespaceSeparator { width: 1, style: Style::unset() })
    &&& c.children@[2] == Widget::Space(WhitespaceSeparator { width: 1, style: Style::unset() })
    &&& (c.children@[1] matches Widget::Text(span) && span.text@ == (match ctx.mode {
        Mode::Insert => "INS"@,
        Mode::Command => "CMD"@,
    }) && span.width == span.text@.len() && span.style == Style::unset() && span.alignment
        == Alignment::Left)
}

/// The style of the file widget: bold, underlined while unsaved changes
/// exist.
pub open spec fn file_widget_style(dirty: bool) -> Style {
    Style {
        fg: None,
        bg: None,
        intensity: Some(FontIntensity::Bold),
        underline: if dirty {
            Some(true)
        } else {
            None
        },
    }
}

/// The displayed file name of a buffer.
pub open spec fn file_name_text(buffer: &Buffer) -> Seq<char> {
    match buffer.spec_path() {
        Some(p) => p,
        None => "[No Filename]"@,
    }
}

/// The shape of the whole status bar: mode and file name on the left, the
/// message in the middle, the cursor position on the right, spread evenly
/// over the bar's width in the status bar highlight.
pub open spec fn bar_shape(
    bar: Container,
    ctx: &RenderingContext,
    pane: &Pane,
    buffer: &Buffer,
    message_text: Seq<char>,
    width: usize,
) -> bool {
    &&& bar.width == Some(width)
    &&& bar.alignment == Alignment::SpaceEvenly
    &&& bar.style == resolve_chain(
        ctx.theme.groups@,
        "ui.statusbar"@,
        Style::unset(),
        (ctx.theme.groups@.len() + 1) as nat,
    )
    &&& bar.children@.len() == 3
    &&& (bar.children@[0] matches Widget::Group(left) && {
        &&& left.width is None
        &&& left.alignment == Alignment::Left
        &&& left.style == Style::unset()
        &&& left.children@.len() == 3
        &&& (left.children@[0] matches Widget::Group(m) && mode_widget_shape(m, ctx))
        &&& left.children@[1] == Widget::Space(
            WhitespaceSeparator { width: 1, style: Style::unset() },
        )
        &&& (left.children@[2] matches Widget::Group(f) && text_group_shape(
            f,
            file_name_text(buffer),
            file_widget_style(buffer.spec_dirty()),
        ))
    })
    &&& (bar.children@[1] matches Widget::Group(center) && {
        &&& center.width is None
        &&& center.alignment == Alignment::Center
        &&& center.style == Style::unset()
        &&& center.children@.len() == 1
        &&& (center.children@[0] matches Widget::Group(m) && text_group_shape(
            m,
            message_text,
            Style::unset(),
        ))
    })
    &&& (bar.children@[2] matches Widget::Group(right) && {
        &&& right.width is None
        &&& right.alignment == Alignment::Right
        &&& right.style == Style::unset()
        &&& right.children@.len() == 1
        &&& (right.children@[0] matches Widget::Group(m) && text_group_shape(
            m,
            position_text(pane.cursor),
            Style::unset(),
        ))
    })
}

/// The status bar: one row tall, holding an optional transient message.
#[derive(Debug, Clone)]
pub struct StatusBar {
    /// The height of the status bar.
    height: usize,
    /// An optional message to display in the status bar.
    message: Option<Message>,
}

impl Default for StatusBar {
    /// An empty status bar one row tall.
    fn default() -> (s: StatusBar)
        ensures
            s.spec_height() == 1,
            s.spec_message() is None,
    {
        StatusBar { height: 1, message: None }
    }
}

impl StatusBar {
    pub closed spec fn spec_height(&self) -> usize {
        self.height
    }

    pub closed spec fn spec_message(&self) -> Option<Message> {
        self.message
    }

    /// Returns the height of the status bar.
    pub fn height(&self) -> (h: usize)
        ensures
            h == self.spec_height(),
    {
        self.height
    }

    /// Sets the message to display in the status bar.
    pub fn set_message(&mut self, message: Message)
        ensures
            final(self).spec_height() == old(self).spec_height(),
            final(self).spec_message() == Some(message),
    {
        self.message = Some(message);
    }

    /// Clears the message once it has outlived its duration, given the
    /// milliseconds elapsed since it was set.
    pub fn update(&mut self, elapsed_ms: u64)
        ensures
            final(self).spec_height() == old(self).spec_height(),
            final(self).spec_message() == match old(self).spec_message() {
                Some(m) => if elapsed_ms > m.spec_duration() {
                    None::<Message>
                } else {
                    Some(m)
                },
                None => None::<Message>,
            },
    {
        let timed_out = match &self.message {
            Some(m) => m.timed_out(elapsed_ms),
            None => false,
        };
        if timed_out {
            self.message = None;
        }
    }

    /// The rectangle the status bar occupies: the bottom row(s) of the
    /// parent.
    pub fn rect(&self, parent: Rect) -> (r: Rect)
        requires
            parent.col + parent.width <= usize::MAX,
            parent.row + parent.height <= usize::MAX,
            self.spec_height() <= parent.row + parent.height,
        ensures
            r.col == parent.col,
            r.row == parent.row + parent.height - self.spec_height(),
            r.width == parent.width,
            r.height == self.spec_height(),
    {
        Rect::new(0, 0, parent.width, self.height).anchored_on(parent, Anchor::BottomLeft)
    }

    /// Renders the status bar into its viewport: mode and file name on the
    /// left, the message in the middle, the cursor position on the right,
    /// all on the viewport's first row; everything else is untouched.
    pub fn render(
        &self,
        frame: &mut Frame,
        ctx: &RenderingContext,
        pane: &Pane,
        buffer: &Buffer,
        viewport: &Viewport,
    )
        requires
            old(frame).wf(),
            ctx.theme.groups@.len() < usize::MAX,
            pane.cursor.row < usize::MAX,
            pane.cursor.col < usize::MAX,
        ensures
            final(frame).wf(),
            final(frame).spec_width() == old(frame).spec_width(),
            final(frame).spec_height() == old(frame).spec_height(),
            final(frame).spec_cursor() == old(frame).spec_cursor(),
            exists|bar: Container|
                {
                    &&& #[trigger] bar_shape(
                        bar,
                        ctx,
                        pane,
                        buffer,
                        shown_message_text(self.spec_message()),
                        viewport.spec_rect().width,
                    )
                    &&& forall|c: int, rr: int|
                        0 <= c < old(frame).spec_width() && 0 <= rr < old(frame).spec_height()
                            ==> #[trigger] final(frame).cell_at(c, rr) == ({
                            let cells = container_layout(
                                bar.children@,
                                Some(viewport.spec_rect().width),
                                bar.style,
                                Alignment::SpaceEvenly,
                            );
                            if rect_covers(
                                viewport.spec_rect(),
                                0,
                                0,
                                cells.len() as int,
                                c,
                                rr,
                            ) {
                                crate::frame::Cell {
                                    ch: cells[c - viewport.spec_rect().col].ch,
                                    style: merged(
                                        cells[c - viewport.spec_rect().col].style,
                                        old(frame).cell_at(c, rr).style,
                                    ),
                                }
                            } else {
                                old(frame).cell_at(c, rr)
                            }
                        })
                },
    {
        let group = HighlightGroup::new("ui.statusbar");
        let style = ctx.theme.resolve(&group);
        let mode_part = ModeWidget::new(ctx).container;
        let ghost mode_g = mode_part;
        let file_part = FileWidget::new(ctx, pane, buffer).container;
        let ghost file_g = file_part;
        let left_plain = ContainerBuilder::default().with_child(
            Widget::Group(mode_part),
        ).with_child(Widget::Group(file_part)).build();
        let ghost left_plain_g = left_plain;
        let left = left_plain.with_whitespace_separator(1);
        proof {
            assert(left_plain_g.children@.len() == 2);
            assert(left_plain_g.children@[0] == Widget::Group(mode_g));
            assert(left_plain_g.children@[1] == Widget::Group(file_g));
            assert(left.children@.len() == 3);
            assert(left.children@[2int * 0] == left_plain_g.children@[0]);
            assert(left.children@[2int * 1] == left_plain_g.children@[1]);
            assert(left.children@[2int * 0 + 1] == Widget::Space(
                WhitespaceSeparator { width: 1, style: Style::unset() },
            ));
        }
        let message = match &self.message {
            Some(m) => Some(m),
            None => None,
        };
        let message_part = MessageWidget::new(message).container;
        let ghost message_g = message_part;
        let center = ContainerBuilder::default().with_child(
            Widget::Group(message_part),
        ).with_alignment(Alignment::Center).build();
        let cursor_part = CursorWidget::new(pane).container;
        let ghost cursor_g = cursor_part;
        let right = ContainerBuilder::default().with_child(
            Widget::Group(cursor_part),
        ).with_alignment(Alignment::Right).build();
        let ghost left_g = left;
        let ghost center_g = center;
        let ghost right_g = right;
        let bar = ContainerBuilder::default().with_width(Some(viewport.width())).with_alignment(
            Alignment::SpaceEvenly,
        ).with_child(Widget::Group(left)).with_child(Widget::Group(center)).with_child(
            Widget::Group(right),
        ).with_style(style).build();
        proof {
            assert(bar.children@ =~= seq![
                Widget::Group(left_g),
                Widget::Group(center_g),
                Widget::Group(right_g),
            ]);
            assert(center_g.children@[0] == Widget::Group(message_g));
            assert(right_g.children@[0] == Widget::Group(cursor_g));
        }
        proof {
            assert(all_padding_groups(bar.children@)) by {
                assert(bar.children@[0] matches Widget::Group(g) && g.alignment
                    != Alignment::SpaceEvenly);
                assert(bar.children@[1] matches Widget::Group(g) && g.alignment
                    != Alignment::SpaceEvenly);
                assert(bar.children@[2] matches Widget::Group(g) && g.alignment
                    != Alignment::SpaceEvenly);
            }
            crate::widget::lemma_bar_content_len(
                bar.children@,
                viewport.spec_rect().width,
                bar.style,
                3,
            );
        }
        viewport.put_widget(frame, 0, &bar);
        proof {
            assert(bar_shape(
                bar,
                ctx,
                pane,
                buffer,
                shown_message_text(self.spec_message()),
                viewport.spec_rect().width,
            ));
        }
    }
}

/// The widget showing the current mode, framed by single spaces, in the
/// mode's own highlight.
pub struct ModeWidget {
    pub container: Container,
}

impl ModeWidget {
    pub fn new(ctx: &RenderingContext) -> (w: ModeWidget)
        requires
            ctx.theme.groups@.len() < usize::MAX,
        ensures
            mode_widget_shape(w.container, ctx),
    {
        let group = match ctx.mode {
            Mode::Insert => HighlightGroup::new("ui.statusbar.mode.insert"),
            Mode::Command => HighlightGroup::new("ui.statusbar.mode.command"),
        };
        let style = ctx.theme.resolve(&group);
        let label = ctx.mode.label();
        let container = ContainerBuilder::default().with_child(
            Widget::Space(crate::widget::WhitespaceSeparator::new(1)),
        ).with_child(Widget::Text(Span::new(label))).with_child(
            Widget::Space(crate::widget::WhitespaceSeparator::new(1)),
        ).with_style(style).build();
        ModeWidget { container }
    }
}

/// The widget showing the file name of the given pane's buffer, underlined
/// while the buffer has unsaved changes.
pub struct FileWidget {
    pub container: Container,
}

impl FileWidget {
    pub fn new(ctx: &RenderingContext, pane: &Pane, buffer: &Buffer) -> (w: FileWidget)
        ensures
            text_group_shape(
                w.container,
                file_name_text(buffer),
                file_widget_style(buffer.spec_dirty()),
            ),
    {
        let file_name = pane.file_name(buffer);
        let style = if pane.is_dirty(buffer) {
            Style::new().bold().underline()
        } else {
            Style::new().bold()
        };
        let container = ContainerBuilder::default().with_child(
            Widget::Text(Span::new(file_name.as_str())),
        ).with_style(style).build();
        FileWidget { container }
    }
}

/// The widget showing the current status message, or nothing.
pub struct MessageWidget {
    pub container: Container,
}

impl MessageWidget {
    pub fn new(message: Option<&Message>) -> (w: MessageWidget)
        ensures
            text_group_shape(
                w.container,
                match message {
                    Some(m) => m.spec_content(),
                    None => Seq::<char>::empty(),
                },
                Style::unset(),
            ),
    {
        let text: String = match message {
            Some(m) => String::from_str(m.text()),
            None => String::new(),
        };
        let container = ContainerBuilder::default().with_child(
            Widget::Text(Span::new(text.as_str())),
        ).build();
        MessageWidget { container }
    }
}

/// The widget showing the one-based cursor position as `row:col`.
pub struct CursorWidget {
    pub container: Container,
}

impl CursorWidget {
    pub fn new(pane: &Pane) -> (w: CursorWidget)
        requires
            pane.cursor.row < usize::MAX,
            pane.cursor.col < usize::MAX,
        ensures
            text_group_shape(w.container, position_text(pane.cursor), Style::unset()),
    {
        let (col, row) = pane.cursor_position();
        let mut text = chars::decimal_chars(row + 1);
        text.push(':');
        let mut cols = chars::decimal_chars(col + 1);
        text.append(&mut cols);
        let s = chars::string_of(text.as_slice());
        proof {
            assert(s@ =~= chars::spec_decimal((pane.cursor.row + 1) as nat) + seq![':']
                + chars::spec_decimal((pane.cursor.col + 1) as nat));
        }
        let container = ContainerBuilder::default().with_child(
            Widget::Text(Span::new(s.as_str())),
        ).build();
        CursorWidget { container }
    }
}

} // verus!
