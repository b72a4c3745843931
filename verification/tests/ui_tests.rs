use textpane::buffer::Buffer;
use textpane::buffer_manager::BufferManager;
use textpane::compositor::{Compositor, Layout};
use textpane::context::RenderingContext;
use textpane::cursor::{Cursor, CursorMovement};
use textpane::frame::Cell;
use textpane::geometry::{Point, Rect};
use textpane::gutter::Gutter;
use textpane::mode::Mode;
use textpane::palette::{CommandInfo, CommandPalette};
use textpane::pane::Pane;
use textpane::pane_manager::PaneManager;
use textpane::pane_view::{BarsLayout, PaneManagerView, PaneView};
use textpane::prompt::{
    ConfirmPrompt, FilesPrompt, Key, PromptAction, PromptResponse, PromptStatus, PromptType,
    SearchPrompt,
};
use textpane::status_bar::{Message, StatusBar};
use textpane::style::{Color, Style};
use textpane::text::{Alignment, Line, Section, Span};
use textpane::theme::{HighlightGroup, Theme, ThemeEntry};
use textpane::widget::{Container, ContainerBuilder, WhitespaceSeparator, Widget};

fn palette_of(names: &[&str]) -> CommandPalette {
    let commands = names
        .iter()
        .map(|n| CommandInfo { name: String::from(*n), description: String::new() })
        .collect();
    CommandPalette::new(commands)
}

#[test]
fn span_pads_to_width() {
    let cells = Span::new("ab").with_width(4).as_cells();
    assert_eq!(cells.len(), 4);
    assert_eq!(cells[0].ch, 'a');
    assert_eq!(cells[1].ch, 'b');
    assert_eq!(cells[2].ch, ' ');
    let right = Span::new("ab").with_width(4).with_alignment(Alignment::Right).as_cells();
    assert_eq!(right[0].ch, ' ');
    assert_eq!(right[2].ch, 'a');
    let center = Span::new("ab").with_width(4).with_alignment(Alignment::Center).as_cells();
    assert_eq!(center[0].ch, ' ');
    assert_eq!(center[1].ch, 'a');
    assert_eq!(center[2].ch, 'b');
    assert_eq!(center[3].ch, ' ');
}

#[test]
fn section_separator_interleaves_spans() {
    let section = Section::new(vec![Span::new("a"), Span::new("b"), Span::new("c")])
        .with_whitespace_separator();
    assert_eq!(section.spans.len(), 5);
    assert_eq!(section.spans[1].text, " ");
    assert_eq!(section.spans[3].text, " ");
    let cells = section.as_cells();
    let text: String = cells.iter().map(|c| c.ch).collect();
    assert_eq!(text, "a b c");
}

#[test]
fn line_divides_width_into_slots() {
    let line = Line::new(7)
        .with_section(Section::new(vec![Span::new("ab")]))
        .with_section(Section::new(vec![Span::new("c")]));
    let cells = line.as_cells();
    let text: String = cells.iter().map(|c| c.ch).collect();
    assert_eq!(text, "ab  c  ");
}

#[test]
fn line_style_underlays_every_cell() {
    let line = Line::new(2)
        .with_section(Section::new(vec![Span::new("x")]))
        .with_style(Style::new().bg(Color::Blue));
    let cells = line.as_cells();
    assert!(cells.iter().all(|c| c.style.bg == Some(Color::Blue)));
}

#[test]
fn container_truncates_and_pads() {
    let c = ContainerBuilder::default()
        .with_child(Widget::Text(Span::new("abcdef")))
        .with_width(Some(4))
        .build();
    let text: String = c.as_cells().iter().map(|x| x.ch).collect();
    assert_eq!(text, "abcd");

    let padded = ContainerBuilder::default()
        .with_child(Widget::Text(Span::new("ab")))
        .with_width(Some(5))
        .with_alignment(Alignment::Right)
        .build();
    let text: String = padded.as_cells().iter().map(|x| x.ch).collect();
    assert_eq!(text, "   ab");
}

#[test]
fn container_space_evenly_gives_slots() {
    let c = ContainerBuilder::default()
        .with_child(Widget::Text(Span::new("abc")))
        .with_child(Widget::Text(Span::new("defg")))
        .with_width(Some(6))
        .with_alignment(Alignment::SpaceEvenly)
        .build();
    let text: String = c.as_cells().iter().map(|x| x.ch).collect();
    assert_eq!(text, "abcdef");
}

#[test]
fn container_separator_and_width() {
    let c = ContainerBuilder::default()
        .with_child(Widget::Text(Span::new("ab")))
        .with_child(Widget::Text(Span::new("cd")))
        .build()
        .with_whitespace_separator(2);
    assert_eq!(c.children.len(), 3);
    assert!(matches!(c.children[1], Widget::Space(_)));
    assert_eq!(c.width(), 6);
    let sep = WhitespaceSeparator::new(3);
    assert_eq!(sep.width, 3);
    let nested: Container = ContainerBuilder::default().with_children(vec![]).build();
    assert_eq!(nested.width(), 0);
}

#[test]
fn gutter_grows_with_line_count() {
    let mut g = Gutter::new(4);
    g.update_width(7);
    assert_eq!(g.width(), 5);
    g.update_width(12345);
    assert_eq!(g.width(), 9);
    g.update_width(1);
    assert_eq!(g.width(), 9);
}

#[test]
fn theme_resolves_through_parent_chain() {
    let theme = Theme::default();
    let base = theme.resolve(&HighlightGroup::new("ui"));
    assert_eq!(base.bg, Some(Color::Rgb { r: 30, g: 30, b: 30 }));
    let bar = theme.resolve(&HighlightGroup::new("ui.statusbar"));
    assert_eq!(bar.bg, Some(Color::Rgb { r: 40, g: 40, b: 40 }));
    assert_eq!(bar.fg, Some(Color::Rgb { r: 220, g: 220, b: 220 }));
    let unknown = theme.resolve(&HighlightGroup::new("nope"));
    assert_eq!(unknown, Style::new());
}

#[test]
fn theme_merge_keeps_own_groups() {
    let mut theme = Theme::default();
    let extra = Theme {
        groups: vec![(
            HighlightGroup::new("custom"),
            ThemeEntry { style: Style::new().fg(Color::Red), parent: None },
        )],
    };
    theme.merge_onto(&extra);
    let custom = theme.resolve(&HighlightGroup::new("custom"));
    assert_eq!(custom.fg, Some(Color::Red));
}

#[test]
fn status_message_times_out() {
    let m = Message::new("saved").with_duration(100);
    assert_eq!(m.text(), "saved");
    assert!(!m.timed_out(100));
    assert!(m.timed_out(101));
    let mut bar = StatusBar::default();
    assert_eq!(bar.height(), 1);
    bar.set_message(Message::new("hi").with_duration(10));
    bar.update(5);
    bar.update(11);
    bar.update(0);
}

#[test]
fn palette_filters_by_substring() {
    let mut p = palette_of(&["open", "write", "write-quit", "quit"]);
    p.insert_char('w');
    p.insert_char('r');
    assert!(p.get_filtered_command(0).is_some());
    assert_eq!(p.get_filtered_command(0).unwrap().name, "write");
    assert_eq!(p.get_filtered_command(1).unwrap().name, "write-quit");
    assert!(p.get_filtered_command(2).is_none());
    p.delete_char();
    p.delete_char();
    assert!(p.get_filtered_command(3).is_some());
}

#[test]
fn palette_selection_wraps_and_autocompletes() {
    let mut p = palette_of(&["alpha", "beta"]);
    p.select_next_command();
    assert_eq!(p.get_selected_command().unwrap().name, "beta");
    p.select_next_command();
    assert_eq!(p.get_selected_command().unwrap().name, "alpha");
    p.select_prev_command();
    assert_eq!(p.get_selected_command().unwrap().name, "beta");
    p.clear_query();
    assert_eq!(p.get_selected_command().unwrap().name, "alpha");
    p.autocomplete();
    let (command, args) = p.parse_query();
    assert_eq!(command, "alpha");
    assert!(args.is_empty());
}

#[test]
fn palette_parse_query_splits_arguments() {
    let mut p = palette_of(&["write"]);
    p.set_query("write  a.txt  b.txt ");
    let (command, args) = p.parse_query();
    assert_eq!(command, "write");
    assert_eq!(args, vec![String::from("a.txt"), String::from("b.txt")]);
}

#[test]
fn confirm_prompt_keys() {
    let mut p = ConfirmPrompt::new("overwrite?");
    assert_eq!(p.process_key(Key::Enter), PromptStatus::Done(PromptResponse::Yes));
    assert_eq!(p.process_key(Key::Char('y')), PromptStatus::Done(PromptResponse::Yes));
    assert_eq!(p.process_key(Key::Char('n')), PromptStatus::Done(PromptResponse::No));
    assert_eq!(p.process_key(Key::Esc), PromptStatus::Done(PromptResponse::Cancel));
    assert_eq!(p.process_key(Key::Char('z')), PromptStatus::Pending);
    assert_eq!(p.rect(Rect::new(0, 0, 10, 5)), Rect::new(0, 3, 10, 1));
}

#[test]
fn search_prompt_tracks_query_and_finds_matches() {
    let buffer = Buffer::open_file("t.txt", "one\ntwo\nthree");
    let pane = Pane::new(0, 0);
    let mut p = SearchPrompt::new(pane);
    assert_eq!(p.process_key(Key::Char('t')), PromptStatus::Changed);
    let action = p.on_changed(&buffer);
    assert_eq!(action, PromptAction::MoveCursor(Point::new(0, 1)));
    assert_eq!(p.process_key(Key::Char('h')), PromptStatus::Changed);
    let action = p.on_changed(&buffer);
    assert_eq!(action, PromptAction::MoveCursor(Point::new(0, 2)));
    assert_eq!(p.process_key(Key::Backspace), PromptStatus::Changed);
    match p.process_key(Key::Enter) {
        PromptStatus::Done(PromptResponse::Text(t)) => assert_eq!(t, "t"),
        other => panic!("unexpected status {:?}", other),
    }
}

#[test]
fn search_prompt_dispatches_through_prompt_type() {
    let buffer = Buffer::open_file("t.txt", "abc");
    let mut prompt = PromptType::Search(SearchPrompt::new(Pane::new(0, 0)));
    assert_eq!(prompt.process_key(Key::Char('b')), PromptStatus::Changed);
    assert_eq!(prompt.on_changed(&buffer), PromptAction::MoveCursor(Point::new(1, 0)));
    let mut confirm = PromptType::Confirm(ConfirmPrompt::new("?"));
    assert_eq!(confirm.on_changed(&buffer), PromptAction::NoAction);
}

#[test]
fn files_prompt_filters_case_insensitively() {
    let files = vec![String::from("src/Main.rs"), String::from("README.md")];
    let mut p = FilesPrompt::new(files);
    assert_eq!(p.process_key(Key::Char('m')), PromptStatus::Changed);
    match p.process_key(Key::Enter) {
        PromptStatus::Done(PromptResponse::File(f)) => assert_eq!(f, "src/Main.rs"),
        other => panic!("unexpected status {:?}", other),
    }
    assert_eq!(p.process_key(Key::Char('d')), PromptStatus::Changed);
    match p.process_key(Key::Enter) {
        PromptStatus::Done(PromptResponse::File(f)) => assert_eq!(f, "README.md"),
        other => panic!("unexpected status {:?}", other),
    }
    assert_eq!(p.process_key(Key::Esc), PromptStatus::Done(PromptResponse::Cancel));
}

#[test]
fn pane_view_scrolls_to_cursor() {
    let mut view = PaneView::default();
    view.update_size(Rect::new(0, 0, 10, 4));
    assert_eq!(view.width(), 6);
    assert_eq!(view.height(), 4);
    let mut cursor = Cursor::default();
    cursor.row = 9;
    cursor.col = 0;
    assert!(view.scroll_to_cursor(&cursor));
    assert_eq!(view.row_offset, 6);
    cursor.row = 2;
    assert!(view.scroll_to_cursor(&cursor));
    assert_eq!(view.row_offset, 2);
    cursor.row = 3;
    assert!(!view.scroll_to_cursor(&cursor));
}

#[test]
fn pane_view_visible_rows_follow_scroll() {
    let buffer = Buffer::open_file("t.txt", "aa\nbb\ncc\ndd");
    let mut view = PaneView::default();
    view.update_size(Rect::new(0, 0, 10, 2));
    view.scroll_vertically(2);
    let rows = view.visible_rows(&buffer);
    assert_eq!(rows, vec![String::from("cc"), String::from("dd")]);
}

#[test]
fn bars_layout_divides_screen() {
    let layout = BarsLayout::calculate_layout(2, Rect::new(0, 0, 9, 5));
    assert_eq!(layout.rects.len(), 2);
    assert_eq!(layout.rects[0], Rect::new(0, 0, 5, 5));
    assert_eq!(layout.rects[1], Rect::new(5, 0, 4, 5));
}

#[test]
fn pane_manager_view_positions_cursor() {
    let mut pm = PaneManager::new();
    pm.open_pane(0);
    let buffer = Buffer::open_file("t.txt", "hello");
    {
        let panes = pm.iter_mut();
        panes[0].move_cursor(&buffer, CursorMovement::Position(3, 0));
    }
    let mut view = PaneManagerView::default();
    view.sync_panes(&pm, Rect::new(0, 0, 20, 5));
    let p = view.get_active_cursor_screen_position(&pm);
    assert_eq!(p, Point::new(7, 0));
}

#[test]
fn layout_reserves_rows() {
    let l = Layout::calculate(80, 24, 1, true, Mode::Command);
    assert_eq!(l.pane_manager, Rect::new(0, 0, 80, 23));
    assert_eq!(l.status_bar, Rect::new(0, 23, 80, 1));
    assert_eq!(l.prompt, Some(Rect::new(0, 22, 80, 1)));
    assert_eq!(l.command_palette, Some(Rect::new(0, 0, 80, 23)));
    let plain = Layout::calculate(80, 24, 1, false, Mode::Insert);
    assert_eq!(plain.prompt, None);
    assert_eq!(plain.command_palette, None);
}

#[test]
fn compositor_draws_a_full_frame() {
    let mut buffers = BufferManager::default();
    let id = buffers.open_new_or_existing_file("t.txt", Some("hello\nworld"));
    let mut pm = PaneManager::new();
    pm.open_pane(id);
    let ctx = RenderingContext {
        mode: Mode::Insert,
        theme: Theme::default(),
        pane_manager: pm,
        buffer_manager: buffers,
        editor_view: Rect::new(0, 0, 30, 6),
    };
    let mut compositor = Compositor::new();
    compositor.set_message(Message::new("ready"));
    let palette = palette_of(&["write"]);
    let frame = compositor.compose_frame(&ctx, None, &palette);
    assert_eq!(frame.width(), 30);
    assert_eq!(frame.height(), 6);
    assert_eq!(frame.cursor_position(), Some(Point::new(5, 0)));
    let gutter_text: String = (0..5).map(|c| frame.cell(c, 0).ch).collect();
    assert_eq!(gutter_text, "  1  ");
    let body: String = (5..10).map(|c| frame.cell(c, 0).ch).collect();
    assert_eq!(body, "hello");
    let second: String = (5..10).map(|c| frame.cell(c, 1).ch).collect();
    assert_eq!(second, "world");
}

#[test]
fn mode_labels() {
    assert_eq!(Mode::Insert.label(), "INS");
    assert_eq!(Mode::Command.label(), "CMD");
    assert_eq!(Mode::default(), Mode::Insert);
}

#[test]
fn blank_cell_is_overwriting_space() {
    let c = Cell::default();
    assert_eq!(c.ch, ' ');
    assert_eq!(c.style, Style::new());
}

#[test]
fn status_bar_widgets_build_their_containers() {
    let mut buffers = BufferManager::default();
    let id = buffers.open_new_or_existing_file("t.txt", Some("hi"));
    let mut pm = PaneManager::new();
    pm.open_pane(id);
    let pane = *pm.active();
    let ctx = RenderingContext {
        mode: Mode::Command,
        theme: Theme::default(),
        pane_manager: pm,
        buffer_manager: buffers,
        editor_view: Rect::new(0, 0, 20, 4),
    };
    let mode = textpane::status_bar::ModeWidget::new(&ctx);
    assert_eq!(mode.container.children.len(), 3);
    let entry_index = ctx.buffer_manager.index_of(id).unwrap();
    let file = textpane::status_bar::FileWidget::new(
        &ctx,
        &pane,
        &ctx.buffer_manager.entry(entry_index).buffer,
    );
    let text: String = file.container.as_cells().iter().map(|c| c.ch).collect();
    assert_eq!(text, "t.txt");
    let hello = Message::new("hello");
    let message = textpane::status_bar::MessageWidget::new(Some(&hello));
    let text: String = message.container.as_cells().iter().map(|c| c.ch).collect();
    assert_eq!(text, "hello");
    let silent = textpane::status_bar::MessageWidget::new(None);
    assert_eq!(silent.container.as_cells().len(), 0);
    let cursor = textpane::status_bar::CursorWidget::new(&pane);
    let text: String = cursor.container.as_cells().iter().map(|c| c.ch).collect();
    assert_eq!(text, "1:1");
}
