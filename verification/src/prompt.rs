//! Prompts: small modal dialogs over the editor. Each consumes keys and
//! reports whether it is done, and with what response.

use vstd::prelude::*;
use vstd::string::StringExecFns;
use crate::buffer::Buffer;
use crate::chars;
use crate::chars::lower_of;
use crate::chars::match_at;
use crate::context::RenderingContext;
use crate::frame::Frame;
use crate::geometry::{Anchor, Point, Rect};
use crate::pane::Pane;
use crate::style::Style;
use crate::text::Span;
use crate::theme::HighlightGroup;
use crate::viewport::Viewport;
use crate::widget::{ContainerBuilder, Widget};

verus! {

/// One key press, reduced to what the prompts read.
#[derive(Debug, Clone, Copy, PartialEq, Eq, Structural)]
pub enum Key {
    Char(char),
    Enter,
    Esc,
    Backspace,
    Other,
}

/// What a finished prompt hands back.
#[derive(Debug, Clone, PartialEq, Eq)]
pub enum PromptResponse {
    Yes,
    No,
    Cancel,
    Text(String),
    File(String),
}

/// An action a prompt asks the editor to take while it is open.
#[derive(Debug, Clone, Copy, PartialEq, Eq, Structural)]
pub enum PromptAction {
    NoAction,
    MoveCursor(Point),
}

/// Whether a prompt is done, changed, or still waiting.
#[derive(Debug, Clone, PartialEq, Eq)]
pub enum PromptStatus {
    /// The prompt is done, with its response.
    Done(PromptResponse),
    /// The prompt's state changed.
    Changed,
    /// The prompt is still waiting for input.
    Pending,
}

/// A yes/no confirmation.
#[derive(Debug, Clone)]
pub struct ConfirmPrompt {
    message: String,
}

impl ConfirmPrompt {
    pub closed spec fn spec_message(&self) -> Seq<char> {
        self.message@
    }

    pub fn new(message: &str) -> (p: ConfirmPrompt)
        ensures
            p.spec_message() == message@,
    {
        ConfirmPrompt { message: String::from_str(message) }
    }

    /// Interprets one key: enter and `y` confirm, `n` declines, escape
    /// cancels, anything else waits.
    pub fn process_key(&mut self, key: Key) -> (status: PromptStatus)
        ensures
            *final(self) == *old(self),
            status == match key {
                Key::Enter => PromptStatus::Done(PromptResponse::Yes),
                Key::Char(c) => if c == 'y' {
                    PromptStatus::Done(PromptResponse::Yes)
                } else if c == 'n' {
                    PromptStatus::Done(PromptResponse::No)
                } else {
                    PromptStatus::Pending
                },
                Key::Esc => PromptStatus::Done(PromptResponse::Cancel),
                _ => PromptStatus::Pending,
            },
    {
        match key {
            Key::Enter => PromptStatus::Done(PromptResponse::Yes),
            Key::Char(c) => {
                if c == 'y' {
                    PromptStatus::Done(PromptResponse::Yes)
                } else if c == 'n' {
                    PromptStatus::Done(PromptResponse::No)
                } else {
                    PromptStatus::Pending
                }
            },
            Key::Esc => PromptStatus::Done(PromptResponse::Cancel),
            _ => PromptStatus::Pending,
        }
    }

    /// The row above the status bar, full width.
    pub fn rect(&self, parent: Rect) -> (r: Rect)
        requires
            parent.col + parent.width <= usize::MAX,
            parent.row + parent.height <= usize::MAX,
            parent.row + parent.height >= 2,
        ensures
            r == (Rect {
                col: parent.col,
                row: (parent.row + parent.height - 2) as usize,
                width: parent.width,
                height: 1,
            }),
    {
        Rect::new(0, 0, parent.width, 1).anchored_on(parent, Anchor::BottomLeft).offset(0, -1)
    }

    /// Renders the question with a `[y/n]` hint.
    pub fn render(&self, frame: &mut Frame, ctx: &RenderingContext, viewport: &Viewport)
        requires
            old(frame).wf(),
            ctx.theme.groups@.len() < usize::MAX,
        ensures
            final(frame).wf(),
            final(frame).spec_width() == old(frame).spec_width(),
            final(frame).spec_height() == old(frame).spec_height(),
            final(frame).spec_cursor() == old(frame).spec_cursor(),
    {
        let group = HighlightGroup::new("ui.overlay");
        let style = ctx.theme.resolve(&group);
        let mut text = String::from_str(self.message.as_str());
        text.append(" [y/n] ");
        let widget = ContainerBuilder::default().with_width(Some(viewport.width())).with_child(
            Widget::Text(Span::new(text.as_str())),
        ).with_style(style).build();
        proof {
            crate::widget::lemma_fixed_container_len(
                widget.children@,
                viewport.spec_rect().width,
                style,
                crate::text::Alignment::Left,
            );
        }
        viewport.put_widget(frame, 0, &widget);
    }
}

/// An incremental text search within one pane.
#[derive(Debug, Clone)]
pub struct SearchPrompt {
    query: String,
    /// The pane the search runs in.
    pane: Pane,
}

impl SearchPrompt {
    pub closed spec fn spec_query(&self) -> Seq<char> {
        self.query@
    }

    pub closed spec fn spec_pane(&self) -> Pane {
        self.pane
    }

    pub fn new(pane: Pane) -> (p: SearchPrompt)
        ensures
            p.spec_query() == Seq::<char>::empty(),
            p.spec_pane() == pane,
    {
        SearchPrompt { query: String::new(), pane }
    }

    /// Interprets one key: characters extend the query, backspace shortens
    /// it, enter or escape finish with the query as text.
    pub fn process_key(&mut self, key: Key) -> (status: PromptStatus)
        ensures
            final(self).spec_pane() == old(self).spec_pane(),
            match key {
                Key::Esc | Key::Enter => {
                    &&& final(self).spec_query() == old(self).spec_query()
                    &&& status matches PromptStatus::Done(r) && (r matches PromptResponse::Text(
                        t,
                    ) && t@ == old(self).spec_query())
                },
                Key::Char(c) => {
                    &&& final(self).spec_query() == old(self).spec_query().push(c)
                    &&& status == PromptStatus::Changed
                },
                Key::Backspace => {
                    &&& final(self).spec_query() == if old(self).spec_query().len() > 0 {
                        old(self).spec_query().drop_last()
                    } else {
                        old(self).spec_query()
                    }
                    &&& status == PromptStatus::Changed
                },
                Key::Other => {
                    &&& final(self).spec_query() == old(self).spec_query()
                    &&& status == PromptStatus::Pending
                },
            },
    {
        match key {
            Key::Esc | Key::Enter => {
                let text = String::from_str(self.query.as_str());
                PromptStatus::Done(PromptResponse::Text(text))
            },
            Key::Char(c) => {
                self.query.push(c);
                PromptStatus::Changed
            },
            Key::Backspace => {
                let cs = chars::chars_of(self.query.as_str());
                if cs.len() > 0 {
                    let kept = chars::string_of(&cs.as_slice()[0..cs.len() - 1]);
                    proof {
                        assert(cs@.subrange(0, cs@.len() - 1) =~= self.query@.drop_last());
                    }
                    self.query = kept;
                }
                PromptStatus::Changed
            },
            Key::Other => PromptStatus::Pending,
        }
    }

    /// Searches forward for the query from the prompt's pane's cursor and
    /// asks the editor to move there; nothing happens when there is no
    /// match ahead.
    pub fn on_changed(&mut self, buffer: &Buffer) -> (action: PromptAction)
        requires
            old(self).spec_pane().cursor.col < usize::MAX,
        ensures
            *final(self) == *old(self),
            match action {
                PromptAction::MoveCursor(p) => {
                    &&& buffer.match_after(
                        old(self).spec_query(),
                        old(self).spec_pane().cursor,
                        p,
                    )
                    &&& forall|p2: Point|
                        buffer.match_after(
                            old(self).spec_query(),
                            old(self).spec_pane().cursor,
                            p2,
                        ) ==> p.row < p2.row || (p.row == p2.row && p.col <= p2.col)
                },
                _ => forall|p2: Point|
                    !buffer.match_after(old(self).spec_query(), old(self).spec_pane().cursor, p2),
            },
    {
        let found = self.pane.find_next(buffer, self.query.as_str());
        match found {
            Some(point) => PromptAction::MoveCursor(point),
            None => PromptAction::NoAction,
        }
    }

    /// The row above the status bar, full width.
    pub fn rect(&self, parent: Rect) -> (r: Rect)
        requires
            parent.col + parent.width <= usize::MAX,
            parent.row + parent.height <= usize::MAX,
            parent.row + parent.height >= 2,
        ensures
            r == (Rect {
                col: parent.col,
                row: (parent.row + parent.height - 2) as usize,
                width: parent.width,
                height: 1,
            }),
    {
        Rect::new(0, 0, parent.width, 1).anchored_on(parent, Anchor::BottomLeft).offset(0, -1)
    }

    /// Renders the search line.
    pub fn render(&self, frame: &mut Frame, ctx: &RenderingContext, viewport: &Viewport)
        requires
            old(frame).wf(),
            ctx.theme.groups@.len() < usize::MAX,
        ensures
            final(frame).wf(),
            final(frame).spec_width() == old(frame).spec_width(),
            final(frame).spec_height() == old(frame).spec_height(),
            final(frame).spec_cursor() == old(frame).spec_cursor(),
    {
        let group = HighlightGroup::new("ui.overlay");
        let style = ctx.theme.resolve(&group);
        let mut text = String::from_str("search: ");
        text.append(self.query.as_str());
        let widget = ContainerBuilder::default().with_width(Some(viewport.width())).with_child(
            Widget::Text(Span::new(text.as_str())),
        ).with_style(style).build();
        proof {
            crate::widget::lemma_fixed_container_len(
                widget.children@,
                viewport.spec_rect().width,
                style,
                crate::text::Alignment::Left,
            );
        }
        viewport.put_widget(frame, 0, &widget);
    }
}

/// True when the file at index `i` matches the query: its lower-cased path
/// contains the lower-cased query.
pub open spec fn file_matches(file: Seq<char>, query: Seq<char>) -> bool {
    exists|k: int| match_at(lower_of(file), lower_of(query), k)
}

/// The files among `files[0..upto]` whose lower-cased paths contain the
/// lower-cased query, in order.
pub open spec fn matching_files(files: Seq<Seq<char>>, query: Seq<char>, upto: int) -> Seq<
    Seq<char>,
>
    decreases upto,
{
    if upto <= 0 || upto > files.len() {
        Seq::empty()
    } else {
        let rest = matching_files(files, query, upto - 1);
        if file_matches(files[upto - 1], query) {
            rest.push(files[upto - 1])
        } else {
            rest
        }
    }
}

/// A fuzzy file picker over a fixed list of paths.
#[derive(Debug, Clone)]
pub struct FilesPrompt {
    query: String,
    files: Vec<String>,
    filtered_files: Vec<String>,
    selected_index: usize,
}

impl FilesPrompt {
    pub closed spec fn spec_query(&self) -> Seq<char> {
        self.query@
    }

    pub closed spec fn spec_files(&self) -> Seq<Seq<char>> {
        self.files@.map_values(|f: String| f@)
    }

    pub closed spec fn spec_filtered(&self) -> Seq<Seq<char>> {
        self.filtered_files@.map_values(|f: String| f@)
    }

    pub closed spec fn spec_selected(&self) -> usize {
        self.selected_index
    }

    /// A picker over the given file paths, all of them listed.
    pub fn new(files: Vec<String>) -> (p: FilesPrompt)
        ensures
            p.spec_query() == Seq::<char>::empty(),
            p.spec_selected() == 0,
            p.spec_files() == files@.map_values(|f: String| f@),
            p.spec_filtered() == p.spec_files(),
    {
        let mut filtered: Vec<String> = Vec::new();
        let mut i: usize = 0;
        while i < files.len()
            invariant
                i <= files@.len(),
                filtered@.len() == i,
                forall|k: int| 0 <= k < i ==> (#[trigger] filtered@[k])@ == files@[k]@,
            decreases files@.len() - i,
        {
            let copy = String::from_str(files[i].as_str());
            filtered.push(copy);
            i = i + 1;
        }
        proof {
            assert(filtered@.map_values(|f: String| f@) =~= files@.map_values(|f: String| f@));
        }
        FilesPrompt { query: String::new(), files, filtered_files: filtered, selected_index: 0 }
    }

    /// Refilters the files against the query, case-insensitively, and
    /// selects the first match.
    fn filter_files(&mut self)
        ensures
            final(self).spec_query() == old(self).spec_query(),
            final(self).spec_files() == old(self).spec_files(),
            final(self).spec_selected() == 0,
            final(self).spec_filtered() == matching_files(
                old(self).spec_files(),
                old(self).spec_query(),
                old(self).spec_files().len() as int,
            ),
    {
        let lowered_query = chars::lowercase(self.query.as_str());
        let needle = chars::chars_of(lowered_query.as_str());
        let mut filtered: Vec<String> = Vec::new();
        let mut i: usize = 0;
        while i < self.files.len()
            invariant
                i <= self.files@.len(),
                needle@ == lower_of(self.spec_query()),
                filtered@.map_values(|f: String| f@) == matching_files(
                    self.spec_files(),
                    self.spec_query(),
                    i as int,
                ),
            decreases self.files@.len() - i,
        {
            let lowered = chars::lowercase(self.files[i].as_str());
            let hay = chars::chars_of(lowered.as_str());
            let keep = chars::contains_chars(hay.as_slice(), needle.as_slice());
            proof {
                assert(hay@ == lower_of(self.spec_files()[i as int]));
                assert(keep == file_matches(self.spec_files()[i as int], self.spec_query()));
            }
            if keep {
                let copy = String::from_str(self.files[i].as_str());
                let ghost before = filtered@;
                filtered.push(copy);
                proof {
                    assert(filtered@.drop_last() =~= before);
                    assert(filtered@.map_values(|f: String| f@) =~= matching_files(
                        self.spec_files(),
                        self.spec_query(),
                        i + 1,
                    ));
                }
            } else {
                proof {
                    assert(filtered@.map_values(|f: String| f@) =~= matching_files(
                        self.spec_files(),
                        self.spec_query(),
                        i + 1,
                    ));
                }
            }
            i = i + 1;
        }
        self.filtered_files = filtered;
        self.selected_index = 0;
    }

    /// Interprets one key: characters extend the query and refilter,
    /// backspace shortens it and refilters, enter picks the selected file,
    /// escape cancels.
    pub fn process_key(&mut self, key: Key) -> (status: PromptStatus)
        ensures
            final(self).spec_files() == old(self).spec_files(),
            match key {
                Key::Esc => {
                    &&& status == PromptStatus::Done(PromptResponse::Cancel)
                    &&& final(self).spec_query() == old(self).spec_query()
                },
                Key::Enter => {
                    &&& final(self).spec_query() == old(self).spec_query()
                    &&& (old(self).spec_selected() < old(self).spec_filtered().len() ==> (status
                        matches PromptStatus::Done(r) && (r matches PromptResponse::File(f) && f@
                        == old(self).spec_filtered()[old(self).spec_selected() as int])))
                    &&& (old(self).spec_selected() >= old(self).spec_filtered().len() ==> status
                        == PromptStatus::Pending)
                },
                Key::Char(c) => {
                    &&& final(self).spec_query() == old(self).spec_query().push(c)
                    &&& status == PromptStatus::Changed
                    &&& final(self).spec_filtered() == matching_files(
                        old(self).spec_files(),
                        final(self).spec_query(),
                        old(self).spec_files().len() as int,
                    )
                },
                Key::Backspace => {
                    &&& final(self).spec_query() == if old(self).spec_query().len() > 0 {
                        old(self).spec_query().drop_last()
                    } else {
                        old(self).spec_query()
                    }
                    &&& status == PromptStatus::Changed
                    &&& final(self).spec_filtered() == matching_files(
                        old(self).spec_files(),
                        final(self).spec_query(),
                        old(self).spec_files().len() as int,
                    )
                },
                Key::Other => {
                    &&& *final(self) == *old(self)
                    &&& status == PromptStatus::Pending
                },
            },
    {
        match key {
            Key::Esc => PromptStatus::Done(PromptResponse::Cancel),
            Key::Enter => {
                if self.selected_index < self.filtered_files.len() {
                    let file = String::from_str(
                        self.filtered_files[self.selected_index].as_str(),
                    );
                    proof {
                        assert(self.filtered_files@[self.spec_selected() as int]@
                            == self.spec_filtered()[self.spec_selected() as int]);
                    }
                    PromptStatus::Done(PromptResponse::File(file))
                } else {
                    PromptStatus::Pending
                }
            },
            Key::Char(c) => {
                self.query.push(c);
                self.filter_files();
                PromptStatus::Changed
            },
            Key::Backspace => {
                let cs = chars::chars_of(self.query.as_str());
                if cs.len() > 0 {
                    let kept = chars::string_of(&cs.as_slice()[0..cs.len() - 1]);
                    proof {
                        assert(cs@.subrange(0, cs@.len() - 1) =~= self.query@.drop_last());
                    }
                    self.query = kept;
                }
                self.filter_files();
                PromptStatus::Changed
            },
            Key::Other => PromptStatus::Pending,
        }
    }
}

impl FilesPrompt {
    /// The whole pane area: the query line at the bottom, matches above.
    pub fn rect(&self, parent: Rect) -> (r: Rect)
        ensures
            r == (Rect {
                col: parent.col,
                row: parent.row,
                width: parent.width,
                height: if parent.height > 0 {
                    (parent.height - 1) as usize
                } else {
                    0
                },
            }),
    {
        Rect::new(
            parent.col,
            parent.row,
            parent.width,
            if parent.height > 0 {
                parent.height - 1
            } else {
                0
            },
        )
    }

    /// Renders the picker: the query line on the bottom row and the
    /// matching files above it, the selected one highlighted.
    pub fn render(&self, frame: &mut Frame, ctx: &RenderingContext, viewport: &Viewport)
        requires
            old(frame).wf(),
            ctx.theme.groups@.len() < usize::MAX,
        ensures
            final(frame).wf(),
            final(frame).spec_width() == old(frame).spec_width(),
            final(frame).spec_height() == old(frame).spec_height(),
            final(frame).spec_cursor() == old(frame).spec_cursor(),
    {
        let height = viewport.height();
        if height == 0 {
            return ;
        }
        let base = HighlightGroup::new("ui.overlay");
        let base_style = ctx.theme.resolve(&base);
        let mut prompt_text = String::from_str("Find file: ");
        prompt_text.append(self.query.as_str());
        let widget = ContainerBuilder::default().with_width(Some(viewport.width())).with_child(
            Widget::Text(Span::new(prompt_text.as_str())),
        ).with_style(base_style).build();
        proof {
            crate::widget::lemma_fixed_container_len(
                widget.children@,
                viewport.spec_rect().width,
                base_style,
                crate::text::Alignment::Left,
            );
        }
        viewport.put_widget(frame, height - 1, &widget);
        let selected_group = HighlightGroup::new("ui.overlay.command_prompt.selected");
        let plain_group = HighlightGroup::new("ui.overlay.command_prompt");
        let selected_style = ctx.theme.resolve(&selected_group);
        let plain_style = ctx.theme.resolve(&plain_group);
        let mut i: usize = 0;
        while i < self.filtered_files.len()
            invariant
                frame.wf(),
                frame.spec_width() == old(frame).spec_width(),
                frame.spec_height() == old(frame).spec_height(),
                frame.spec_cursor() == old(frame).spec_cursor(),
                height == viewport.spec_rect().height,
                height > 0,
            decreases self.filtered_files@.len() - i,
        {
            if i > usize::MAX - 2 || height < i + 2 {
                return ;
            }
            let row = height - (i + 2);
            let style = if i == self.selected_index {
                selected_style
            } else {
                plain_style
            };
            let span = Span::new(self.filtered_files[i].as_str()).with_style(style);
            let line_widget = ContainerBuilder::default().with_width(
                Some(viewport.width()),
            ).with_child(Widget::Text(span)).build();
            proof {
                crate::widget::lemma_fixed_container_len(
                    line_widget.children@,
                    viewport.spec_rect().width,
                    Style::unset(),
                    crate::text::Alignment::Left,
                );
            }
            viewport.put_widget(frame, row, &line_widget);
            i = i + 1;
        }
    }
}

/// The open prompt, whichever kind it is.
#[derive(Debug, Clone)]
pub enum PromptType {
    Confirm(ConfirmPrompt),
    Search(SearchPrompt),
}

impl PromptType {
    /// Hands the key to the open prompt.
    pub fn process_key(&mut self, key: Key) -> (status: PromptStatus)
        ensures
            (*old(self)) matches PromptType::Confirm(_) ==> (*final(self))
                matches PromptType::Confirm(_),
            (*old(self)) matches PromptType::Search(_) ==> (*final(self))
                matches PromptType::Search(_),
    {
        match self {
            PromptType::Confirm(p) => p.process_key(key),
            PromptType::Search(p) => p.process_key(key),
        }
    }

    /// Runs the open prompt's reaction to a change of its state; only the
    /// search prompt reacts, by asking for a cursor move to the next match.
    pub fn on_changed(&mut self, buffer: &Buffer) -> (action: PromptAction)
        requires
            (*old(self)) matches PromptType::Search(p) ==> p.spec_pane().cursor.col < usize::MAX,
        ensures
            *final(self) == *old(self),
            (*old(self)) matches PromptType::Confirm(_) ==> action == PromptAction::NoAction,
    {
        match self {
            PromptType::Confirm(_) => PromptAction::NoAction,
            PromptType::Search(p) => p.on_changed(buffer),
        }
    }

    /// The area of the open prompt.
    pub fn rect(&self, parent: Rect) -> (r: Rect)
        requires
            parent.col + parent.width <= usize::MAX,
            parent.row + parent.height <= usize::MAX,
            parent.row + parent.height >= 2,
        ensures
            r == (Rect {
                col: parent.col,
                row: (parent.row + parent.height - 2) as usize,
                width: parent.width,
                height: 1,
            }),
    {
        match self {
            PromptType::Confirm(p) => p.rect(parent),
            PromptType::Search(p) => p.rect(parent),
        }
    }

    /// Renders the open prompt.
    pub fn render(&self, frame: &mut Frame, ctx: &RenderingContext, viewport: &Viewport)
        requires
            old(frame).wf(),
            ctx.theme.groups@.len() < usize::MAX,
        ensures
            final(frame).wf(),
            final(frame).spec_width() == old(frame).spec_width(),
            final(frame).spec_height() == old(frame).spec_height(),
            final(frame).spec_cursor() == old(frame).spec_cursor(),
    {
        match self {
            PromptType::Confirm(p) => p.render(frame, ctx, viewport),
            PromptType::Search(p) => p.render(frame, ctx, viewport),
        }
    }
}

} // verus!
