use helix_picker::column::{Column, InjectorShutdown};
use helix_picker::draw::Sizes;
use helix_picker::geometry::Rect;
use helix_picker::graphics::{GraphicsMode, GraphicsState};
use helix_picker::highlight::CellSpan;
use helix_picker::key::{KeyCode, KeyEvent, KeyModifiers, PickerMode};
use helix_picker::matcher::Status;
use helix_picker::media::{MediaKind, MediaState, Raster};
use helix_picker::pane::{Anchoring, ViewPosition};
use helix_picker::path::FilePath;
use helix_picker::picker::event::{Close, Event, Reaction};
use helix_picker::picker::paging::{PreviewSource, RasterJob, RasterTarget};
use helix_picker::picker::render::{PreviewContent, RowCell};
use helix_picker::picker::{Action, Direction, Picker, MIN_AREA_WIDTH_FOR_PREVIEW};
use helix_picker::preview::{
    CachedPreview, Document, DocumentId, Editor, FileLocation, MediaPreview, PathOrId,
};
use helix_picker::query::PickerQuery;
use std::time::SystemTime;

const AREA: Rect = Rect { x: 0, y: 0, width: 80, height: 14 };

fn path(text: &str) -> FilePath {
    FilePath::from_text(text)
}

fn options(texts: &[&str]) -> Vec<(u64, Vec<String>)> {
    texts.iter().enumerate().map(|(i, text)| (i as u64, vec![text.to_string()])).collect()
}

/// Renders until the matcher has found as many items as it should.
fn settle(picker: &mut Picker, matches: usize, total: usize) -> Vec<u64> {
    for _ in 0..1000 {
        let (layout, keys) = picker.render_picker(AREA, false);
        let count = format!("{matches}/{total}");
        if layout.count.content.ends_with(&count) && layout.count.content == count {
            return keys;
        }
    }
    panic!("the matcher did not settle");
}

fn picker_of(texts: &[&str]) -> Picker {
    let mut picker = Picker::new(vec![Column::new("path")], 0, &options(texts), || {});
    settle(&mut picker, texts.len(), texts.len());
    picker
}

fn query(fields: &[(&str, &str)]) -> PickerQuery {
    PickerQuery {
        fields: fields.iter().map(|(n, t)| (n.to_string(), t.to_string())).collect(),
    }
}

fn editor() -> Editor {
    Editor {
        documents: vec![],
        graphics: GraphicsState { mode: GraphicsMode::Kitty, ..Default::default() },
        modal: false,
        scroll_lines: 3,
        error: None,
    }
}

fn pressed(code: KeyCode) -> Event {
    Event::Key(KeyEvent {
        code,
        modifiers: KeyModifiers { shift: false, control: false, alt: false, meta: false },
    })
}

fn chord(code: KeyCode, control: bool, alt: bool) -> Event {
    Event::Key(KeyEvent {
        code,
        modifiers: KeyModifiers { shift: false, control, alt, meta: false },
    })
}

fn press(picker: &mut Picker, editor: &mut Editor, event: Event) -> Reaction {
    picker.handle_event(&event, editor, &None, "", None)
}

fn raster(id: u32) -> Raster {
    Raster { png: path("/tmp/p.png"), width: 100, height: 200, id }
}

fn media(kind: MediaKind, page_count: Option<usize>) -> MediaState {
    MediaState::open(kind, path("/d/doc.pdf"), SystemTime::UNIX_EPOCH, raster(7), page_count)
}

fn document(id: usize, name: &str, media: Option<MediaState>) -> Document {
    Document {
        id: DocumentId { id },
        path: Some(path(name)),
        media,
        line_count: 50,
        has_language: true,
        highlighted: true,
    }
}

#[test]
fn a_fresh_picker() {
    let picker = Picker::new(
        vec![Column::new("path"), Column::hidden("secret"), Column::new("ä")],
        2,
        &vec![],
        || {},
    );
    assert_eq!(picker.cursor, 0);
    assert_eq!(picker.primary_column, 2);
    assert_eq!(picker.widths, vec![4, 6, 1]);
    assert_eq!(picker.mode, PickerMode::Insert);
    assert_eq!(picker.default_action, Action::Replace);
    assert!(picker.truncate_start && picker.show_preview && !picker.has_preview);
    assert_eq!(picker.selection(), None);
    assert_eq!(picker.header_height(), 1);
    assert_eq!(picker.id(), Some("picker"));
    assert_eq!(picker.primary_query(), "");
}

#[test]
fn builders_set_one_thing_each() {
    let picker = Picker::new(vec![Column::new("path")], 0, &vec![], || {})
        .truncate_start(false)
        .with_history_register(Some('/'))
        .with_initial_cursor(4)
        .with_default_action(Action::Load)
        .with_preview();
    assert!(!picker.truncate_start);
    assert_eq!(picker.history_register, Some('/'));
    assert_eq!(picker.cursor, 4);
    assert_eq!(picker.default_action, Action::Load);
    assert!(picker.has_preview);
    assert_eq!(picker.header_height(), 0);
    let (picker, change) = picker.with_dynamic_query();
    assert!(picker.dynamic && change.is_paste);
    assert_eq!(change.query, "");
}

#[test]
fn columns_of_each_kind() {
    let column = Column::new("a");
    assert!(column.filter && !column.hidden);
    let column = column.without_filtering();
    assert!(!column.filter && !column.hidden);
    assert_eq!(column.name, "a");
    let column = Column::hidden("b");
    assert!(!column.filter && column.hidden);
}

#[test]
fn items_are_found_and_filtered() {
    let mut picker = picker_of(&["alpha.rs", "beta.rs", "gamma.toml"]);
    picker.to_end();
    assert_eq!(picker.cursor, 2);
    let news = picker.handle_prompt_change(query(&[("path", "toml")]), false);
    assert!(news.is_none());
    assert_eq!(picker.cursor, 0);
    assert_eq!(settle(&mut picker, 1, 3), vec![2]);
    assert_eq!(picker.selection(), Some(2));
    // Growing, shrinking and clearing the pattern.
    picker.handle_prompt_change(query(&[("path", "tomlx")]), false);
    assert_eq!(settle(&mut picker, 0, 3), Vec::<u64>::new());
    assert_eq!(picker.selection(), None);
    picker.handle_prompt_change(query(&[("path", "rs")]), false);
    let mut keys = settle(&mut picker, 2, 3);
    keys.sort();
    assert_eq!(keys, vec![0, 1]);
    picker.handle_prompt_change(query(&[]), false);
    assert_eq!(settle(&mut picker, 3, 3).len(), 3);
}

#[test]
fn only_filter_columns_are_matched() {
    let columns = vec![Column::new("a"), Column::new("b").without_filtering(), Column::new("c")];
    let items = vec![
        (10, vec!["one".to_string(), "xyz".to_string(), "two".to_string()]),
        (11, vec!["two".to_string(), "one".to_string(), "one".to_string()]),
    ];
    let mut picker = Picker::new(columns, 0, &items, || {});
    settle(&mut picker, 2, 2);
    picker.handle_prompt_change(query(&[("c", "two")]), false);
    assert_eq!(settle(&mut picker, 1, 2), vec![10]);
    picker.handle_prompt_change(query(&[("a", "two"), ("c", "one")]), false);
    assert_eq!(settle(&mut picker, 1, 2), vec![11]);
    picker.handle_prompt_change(query(&[("b", "xyz")]), false);
    assert_eq!(settle(&mut picker, 2, 2).len(), 2);
}

#[test]
fn an_unchanged_query_keeps_the_cursor() {
    let mut picker = picker_of(&["a", "b", "c"]);
    let (dynamic, _) = Picker::new(vec![Column::new("path")], 0, &vec![], || {}).with_dynamic_query();
    let mut dynamic = dynamic;
    picker.cursor = 2;
    assert!(picker.handle_prompt_change(query(&[]), false).is_none());
    assert_eq!(picker.cursor, 2);
    // A dynamic picker tells what it is asked for now.
    let change = dynamic.handle_prompt_change(query(&[("path", "x y")]), true).unwrap();
    assert_eq!((change.query.as_str(), change.is_paste), ("x y", true));
    assert_eq!(dynamic.primary_query(), "x y");
    assert!(dynamic.handle_prompt_change(query(&[("path", "x y")]), true).is_none());
    let change = dynamic.handle_prompt_change(query(&[("other", "z")]), false).unwrap();
    assert_eq!((change.query.as_str(), change.is_paste), ("", false));
    assert!(dynamic.prompt_handle_event(&Event::Paste, false, query(&[])).is_none());
    let change = dynamic.prompt_handle_event(&Event::Paste, true, query(&[("path", "w")])).unwrap();
    assert!(change.is_paste);
    let typed = pressed(KeyCode::Char('v'));
    let change = dynamic.prompt_handle_event(&typed, true, query(&[("path", "wv")])).unwrap();
    assert!(!change.is_paste);
}

#[test]
fn the_cursor_wraps_around() {
    let mut picker = picker_of(&["a", "b", "c", "d", "e"]);
    picker.move_by(1, Direction::Backward);
    assert_eq!(picker.cursor, 4);
    picker.move_by(1, Direction::Forward);
    assert_eq!(picker.cursor, 0);
    picker.move_by(7, Direction::Forward);
    assert_eq!(picker.cursor, 2);
    picker.move_by(3, Direction::Backward);
    assert_eq!(picker.cursor, 4);
    picker.move_by(u32::MAX, Direction::Forward);
    assert_eq!(picker.cursor, u32::MAX % 5);
    picker.to_start();
    assert_eq!(picker.cursor, 0);
    assert_eq!(picker.required_size((100, 7)), Some((100, 7)));
    assert_eq!((picker.completion_height, picker.preview_height), (3, 5));
    picker.page_down();
    assert_eq!(picker.cursor, 3);
    picker.page_up();
    assert_eq!(picker.cursor, 0);
    picker.page_up();
    assert_eq!(picker.cursor, 2);
    // Moving back undoes moving forward.
    for amount in 0..=5 {
        picker.cursor = 3;
        picker.move_by(amount, Direction::Forward);
        picker.move_by(amount, Direction::Backward);
        assert_eq!(picker.cursor, 3);
    }
    // Nothing to move through.
    let mut empty = Picker::new(vec![Column::new("path")], 0, &vec![], || {}).with_initial_cursor(3);
    empty.move_by(1, Direction::Forward);
    assert_eq!(empty.cursor, 3);
    empty.to_end();
    assert_eq!(empty.cursor, 0);
}

#[test]
fn a_cursor_past_the_matches_is_pulled_back() {
    let mut picker = Picker::new(vec![Column::new("path")], 0, &options(&["a", "b"]), || {})
        .with_initial_cursor(1000);
    settle(&mut picker, 2, 2);
    assert_eq!(picker.cursor, 1);
}

#[test]
fn an_injector_serves_one_version() {
    let (matcher, injector) = Picker::stream(vec![Column::new("path")], || {});
    assert!(injector.push(1, &vec!["one".to_string()], 0).is_ok());
    let other = injector.clone();
    let mut picker = Picker::with_stream(matcher, 0, injector);
    assert!(other.push(2, &vec!["two".to_string()], picker.version).is_ok());
    let later = picker.injector();
    // The injectors count as running.
    let (layout, _) = picker.render_picker(AREA, false);
    assert!(layout.count.content.starts_with("(running) "));
    drop(later);
    assert_eq!(other.push(3, &vec!["three".to_string()], 1), Err(InjectorShutdown));
    assert_eq!(InjectorShutdown.message(), "picker has been shut down");
    drop(other);
    let mut keys = settle(&mut picker, 2, 2);
    keys.sort();
    assert_eq!(keys, vec![1, 2]);
    let mut editor = editor();
    let reaction = press(&mut picker, &mut editor, pressed(KeyCode::Esc));
    assert_eq!(reaction.close, Some(Close::Remember));
    assert_eq!(picker.version, 1);
    assert!(picker.injector().push(4, &vec!["four".to_string()], picker.version).is_ok());
}

#[test]
fn matched_characters_are_picked_out() {
    let columns = vec![Column::hidden("h"), Column::new("path"), Column::new("n").without_filtering()];
    let items = vec![(5, vec!["".to_string(), "xfoo".to_string(), "9".to_string()])];
    let mut picker = Picker::new(columns, 1, &items, || {});
    settle(&mut picker, 1, 1);
    picker.handle_prompt_change(query(&[("path", "foo")]), false);
    settle(&mut picker, 1, 1);
    let span = |text: &str| vec![CellSpan { content: text.to_string(), style: 1, lit: 2 }];
    let cells = vec![vec![], span("xfoo"), span("\u{4e00}\u{4e00}\u{4e00}\u{4e00}\u{4e00}")];
    let mut highlighter = picker.highlighter();
    let row = picker.format_row(0, &cells, &mut highlighter, 0);
    assert!(matches!(row[0], RowCell::Blank));
    assert!(matches!(row[2], RowCell::AsFormatted));
    match &row[1] {
        RowCell::Marked(runs) => {
            let runs: Vec<(&str, u64)> =
                runs.iter().map(|run| (run.content.as_str(), run.style)).collect();
            assert_eq!(runs, vec![("x", 1), ("foo", 2)]);
        }
        _ => panic!("the path is matched"),
    }
    // Five double-width characters need ten columns. Widths belong to the
    // columns that are shown, in order.
    assert_eq!(picker.widths, vec![4, 10, 1]);
    let header = picker.header(Some(2)).unwrap();
    assert_eq!(header[0].name, None);
    assert_eq!((header[1].name.as_deref(), header[1].active), (Some("path"), false));
    assert_eq!((header[2].name.as_deref(), header[2].active), (Some("n"), true));
}

#[test]
fn paths_are_matched_as_paths() {
    // With the preview on, a match behind a separator is preferred.
    let items = options(&["xbar", "x/bar"]);
    let mut picker = Picker::new(vec![Column::new("path")], 0, &items, || {}).with_preview();
    settle(&mut picker, 2, 2);
    picker.handle_prompt_change(query(&[("path", "bar")]), false);
    assert_eq!(settle(&mut picker, 2, 2), vec![1, 0]);
}

#[test]
fn the_frame_of_a_picker() {
    let mut picker = picker_of(&["a", "b", "c"]);
    let (layout, keys) = picker.render_picker(AREA, true);
    assert_eq!(keys.len(), 3);
    let mode = layout.mode.unwrap();
    assert_eq!((mode.x, mode.y, mode.max_width, mode.content.as_str()), (2, 1, 4, "INS "));
    assert_eq!(layout.count.content, "3/3");
    assert_eq!((layout.count.x, layout.count.y, layout.count.max_width), (75, 1, 3));
    assert_eq!(layout.line, Rect { x: 6, y: 1, width: 69, height: 1 });
    assert_eq!(layout.separator, Rect { x: 1, y: 2, width: 78, height: 1 });
    assert_eq!(layout.list, Rect { x: 1, y: 3, width: 78, height: 10 });
    assert_eq!((layout.first, layout.end, layout.selected), (0, 3, 0));
    // The prompt's cursor is on the same line, behind the mode.
    assert_eq!(picker.cursor_area(AREA, true), Rect { x: 6, y: 1, width: 76, height: 1 });
    assert_eq!(picker.cursor_area(AREA, false).x, 2);
    picker.mode = PickerMode::Normal;
    let (layout, _) = picker.render_picker(AREA, true);
    assert_eq!(layout.mode.unwrap().content, "NOR ");
}

#[test]
fn a_long_list_is_shown_page_by_page() {
    let texts: Vec<String> = (0..25).map(|i| format!("item{i:02}")).collect();
    let texts: Vec<&str> = texts.iter().map(|t| t.as_str()).collect();
    let mut picker = picker_of(&texts);
    picker.cursor = 12;
    let (layout, keys) = picker.render_picker(AREA, false);
    assert_eq!((layout.first, layout.end, layout.selected), (10, 20, 2));
    assert_eq!(keys.len(), 10);
    picker.cursor = 24;
    let (layout, keys) = picker.render_picker(AREA, false);
    assert_eq!((layout.first, layout.end, layout.selected), (20, 25, 4));
    assert_eq!(keys.len(), 5);
    assert!(layout.mode.is_none());
}

#[test]
fn a_preview_needs_room() {
    let mut picker = picker_of(&["a"]).with_preview();
    let wide = Rect { width: MIN_AREA_WIDTH_FOR_PREVIEW + 1, ..AREA };
    let (own, preview) = picker.render(wide);
    assert_eq!(own, Rect { width: 36, ..wide });
    assert_eq!(preview, Some(Rect { x: 36, width: 37, ..wide }));
    assert!(picker.preview_shown());
    let narrow = Rect { width: MIN_AREA_WIDTH_FOR_PREVIEW, ..AREA };
    assert_eq!(picker.render(narrow), (narrow, None));
    assert!(!picker.preview_shown());
    picker.toggle_preview();
    assert_eq!(picker.render(wide), (wide, None));
}

#[test]
fn keys_move_and_close() {
    let mut picker = picker_of(&["a", "b", "c"]).with_history_register(Some('p'));
    let mut editor = editor();
    assert!(press(&mut picker, &mut editor, pressed(KeyCode::Down)).consumed);
    assert_eq!(picker.cursor, 1);
    press(&mut picker, &mut editor, pressed(KeyCode::End));
    assert_eq!(picker.cursor, 2);
    press(&mut picker, &mut editor, pressed(KeyCode::Tab));
    assert_eq!(picker.cursor, 0);
    press(&mut picker, &mut editor, pressed(KeyCode::Up));
    assert_eq!(picker.cursor, 2);
    press(&mut picker, &mut editor, pressed(KeyCode::Home));
    assert_eq!(picker.cursor, 0);
    let first = picker.selection().unwrap();
    let reaction = press(&mut picker, &mut editor, chord(KeyCode::Enter, false, true));
    assert_eq!(reaction.open, Some((first, Action::Replace)));
    assert_eq!(reaction.close, None);
    let reaction = press(&mut picker, &mut editor, chord(KeyCode::Char('s'), true, false));
    assert_eq!(reaction.open, Some((first, Action::HorizontalSplit)));
    assert_eq!(reaction.close, Some(Close::Remember));
    let reaction = press(&mut picker, &mut editor, chord(KeyCode::Char('v'), true, false));
    assert_eq!(reaction.open, Some((first, Action::VerticalSplit)));
    assert_eq!(picker.version, 2);
    picker.handle_prompt_change(query(&[("path", "a")]), false);
    settle(&mut picker, 1, 3);
    let reaction = press(&mut picker, &mut editor, pressed(KeyCode::Enter));
    assert_eq!(reaction.open, Some((0, Action::Replace)));
    assert_eq!(reaction.record, Some(('p', "a".to_string())));
    assert_eq!(reaction.close, Some(Close::Remember));
}

#[test]
fn enter_takes_a_history_completion() {
    let mut picker = picker_of(&["a"]);
    let mut editor = editor();
    let enter = pressed(KeyCode::Enter);
    let reaction = picker.handle_event(&enter, &mut editor, &None, "", Some("50% off %p"));
    assert_eq!(reaction.set_line, Some("50\\% off \\%p".to_string()));
    assert_eq!(reaction.open, None);
    assert_eq!(reaction.close, None);
    let reaction = picker.handle_event(&enter, &mut editor, &None, "", Some("plain"));
    assert_eq!(reaction.set_line, Some("plain".to_string()));
    // Once something is typed, enter opens.
    let reaction = picker.handle_event(&enter, &mut editor, &None, "x", Some("plain"));
    assert_eq!(reaction.set_line, None);
    assert_eq!(reaction.open, Some((0, Action::Replace)));
}

#[test]
fn events_that_are_not_keys() {
    let mut picker = picker_of(&["a"]);
    let mut editor = editor();
    assert!(press(&mut picker, &mut editor, Event::Paste).to_prompt);
    for event in [Event::Resize, Event::Mouse] {
        let reaction = press(&mut picker, &mut editor, event);
        assert!(reaction.consumed && !reaction.to_prompt);
    }
    assert!(!press(&mut picker, &mut editor, Event::Other).consumed);
    editor.modal = true;
    picker.mode = PickerMode::Normal;
    let reaction = press(&mut picker, &mut editor, Event::Paste);
    assert!(reaction.consumed && !reaction.to_prompt);
}

#[test]
fn modal_pickers_have_two_modes() {
    let mut picker = picker_of(&["a", "b"]);
    let mut editor = editor();
    editor.modal = true;
    let reaction = press(&mut picker, &mut editor, pressed(KeyCode::Esc));
    assert_eq!(reaction.close, None);
    assert_eq!(picker.mode, PickerMode::Normal);
    assert!(picker.in_normal_mode(true) && !picker.in_normal_mode(false));
    assert!(!press(&mut picker, &mut editor, pressed(KeyCode::Char('j'))).to_prompt);
    assert_eq!(picker.cursor, 1);
    assert!(!press(&mut picker, &mut editor, pressed(KeyCode::Char('x'))).to_prompt);
    press(&mut picker, &mut editor, pressed(KeyCode::Char('t')));
    assert!(!picker.show_preview);
    press(&mut picker, &mut editor, pressed(KeyCode::Char('i')));
    assert_eq!(picker.mode, PickerMode::Insert);
    assert!(press(&mut picker, &mut editor, pressed(KeyCode::Char('j'))).to_prompt);
    press(&mut picker, &mut editor, pressed(KeyCode::Esc));
    let reaction = press(&mut picker, &mut editor, pressed(KeyCode::Esc));
    assert_eq!(reaction.close, Some(Close::Remember));
}

#[test]
fn extra_keys_run_their_handlers() {
    let key = |c: char, alt: bool| KeyEvent {
        code: KeyCode::Char(c),
        modifiers: KeyModifiers { shift: false, control: false, alt, meta: false },
    };
    let mut picker = picker_of(&["a", "b"])
        .with_key_handlers(vec![key('y', true)])
        .with_modal_key_handlers(vec![key('Y', false)]);
    let mut editor = editor();
    picker.cursor = 1;
    let selection = picker.selection().unwrap();
    let reaction = press(&mut picker, &mut editor, Event::Key(key('y', true)));
    let args = reaction.custom.unwrap();
    assert_eq!((args.selection, args.cursor), (selection, 1));
    // Bare keys are typed, except in the normal mode of a modal picker.
    assert!(press(&mut picker, &mut editor, Event::Key(key('Y', false))).to_prompt);
    editor.modal = true;
    picker.mode = PickerMode::Normal;
    let mut shifted = key('Y', false);
    shifted.modifiers.shift = true;
    let reaction = press(&mut picker, &mut editor, Event::Key(shifted));
    assert_eq!(reaction.modal.unwrap().selection, selection);
    // Without a selection the key falls through.
    picker.cursor = 9;
    assert!(press(&mut picker, &mut editor, Event::Key(key('y', true))).custom.is_none());
}

#[test]
fn the_preview_of_a_file_is_made_once() {
    let mut picker = picker_of(&["a"]).with_preview();
    let mut editor = editor();
    let file = path("/d/a.txt");
    let location: Option<FileLocation> = Some((PathOrId::from(&file), Some((3, 5))));
    assert_eq!(picker.get_preview(&editor, &None), PreviewSource::Nothing);
    assert_eq!(picker.get_preview(&editor, &location), PreviewSource::Missing);
    let made = |has_language: bool| {
        CachedPreview::Document(Box::new(Document {
            id: DocumentId { id: 9 },
            path: None,
            media: None,
            line_count: 40,
            has_language,
            highlighted: false,
        }))
    };
    let source = picker.insert_preview(path("/d/a.txt"), made(true));
    let cached = PreviewSource::Cached { index: 0, highlight: true, rasterize: false };
    assert_eq!(source, cached);
    assert_eq!(picker.get_preview(&editor, &location), cached);
    // Without a language there is nothing to highlight by at first.
    let source = picker.insert_preview(path("/d/a.txt"), made(false));
    assert_eq!(source, PreviewSource::Cached { index: 0, highlight: false, rasterize: false });
    assert_eq!(picker.get_preview(&editor, &location), cached);
    let inner = Rect { x: 2, y: 1, width: 30, height: 12 };
    match picker.preview_content(&editor, cached, Some((3, 5)), inner) {
        PreviewContent::Text(plan) => {
            assert_eq!(plan, Anchoring::Centred { start: 3, middle: 4, up: 6 })
        }
        _ => panic!("a document is shown as text"),
    }
    match picker.preview_content(&editor, cached, Some((3, 41)), inner) {
        PreviewContent::Labels(labels) => assert_eq!(labels[0].content, "<Invalid file location>"),
        _ => panic!("the range is not in the document"),
    }
    // A file that is open is shown as it is in the editor.
    editor.documents.push(document(4, "/d/./a.txt", None));
    assert_eq!(picker.get_preview(&editor, &location), PreviewSource::Document(0));
    let by_id: Option<FileLocation> = Some((PathOrId::from(DocumentId { id: 4 }), None));
    assert_eq!(picker.get_preview(&editor, &by_id), PreviewSource::Document(0));
    let source = picker.insert_preview(
        path("/d/b.png"),
        CachedPreview::Media(MediaPreview::Rendering { kind: MediaKind::Image, started: false }),
    );
    assert_eq!(source, PreviewSource::Cached { index: 1, highlight: false, rasterize: true });
}

#[test]
fn a_document_preview_scrolls_by_rows() {
    let mut picker = picker_of(&["a"]).with_preview();
    let mut editor = editor();
    picker.required_size((100, 12));
    picker.scroll_preview_line_down(&mut editor, &None);
    assert_eq!(picker.preview_scroll_offset, 3);
    editor.scroll_lines = -4;
    picker.scroll_preview_line_up(&mut editor, &None);
    assert_eq!(picker.preview_scroll_offset, -1);
    picker.scroll_preview_page_down(&mut editor, &None);
    assert_eq!(picker.preview_scroll_offset, 9);
    picker.scroll_preview_page_up(&mut editor, &None);
    assert_eq!(picker.preview_scroll_offset, -1);
    picker.preview_scroll_offset = isize::MAX;
    picker.scroll_preview_line_down(&mut editor, &None);
    assert_eq!(picker.preview_scroll_offset, isize::MAX);
    // The smallest number leads down and up as far as can be counted.
    editor.scroll_lines = isize::MIN;
    picker.preview_scroll_offset = 0;
    picker.scroll_preview_line_down(&mut editor, &None);
    assert_eq!(picker.preview_scroll_offset, isize::MAX);
    picker.scroll_preview_line_up(&mut editor, &None);
    assert_eq!(picker.preview_scroll_offset, -1);
    picker.scroll_preview_line_up(&mut editor, &None);
    assert_eq!(picker.preview_scroll_offset, isize::MIN);
    editor.scroll_lines = -4;
    // Keys scroll only what is on screen.
    picker.preview_scroll_offset = 0;
    press(&mut picker, &mut editor, chord(KeyCode::Char('j'), false, true));
    assert_eq!(picker.preview_scroll_offset, 0);
    picker.render(Rect { width: 100, ..AREA });
    press(&mut picker, &mut editor, chord(KeyCode::Char('j'), false, true));
    assert_eq!(picker.preview_scroll_offset, 4);
    press(&mut picker, &mut editor, pressed(KeyCode::PageUp));
    assert_eq!(picker.preview_scroll_offset, -6);
    let top = ViewPosition { anchor: 100, vertical_offset: 0 };
    let start = ViewPosition { anchor: 0, vertical_offset: 0 };
    let outcome = picker.settle_preview(top, start, 500, Some(2));
    assert_eq!((outcome.scroll, picker.preview_scroll_offset), (-2, -2));
}

#[test]
fn a_pdf_preview_turns_pages() {
    let mut picker = picker_of(&["a"]).with_preview();
    let mut editor = editor();
    editor.documents.push(document(4, "/d/doc.pdf", Some(media(MediaKind::Pdf, Some(3)))));
    let file = path("/d/doc.pdf");
    let location: Option<FileLocation> = Some((PathOrId::from(&file), None));
    picker.required_size((100, 30));
    let page = |editor: &Editor| editor.documents[0].media.as_ref().unwrap().page;
    picker.scroll_preview_page_down(&mut editor, &location);
    assert_eq!(page(&editor), 1);
    picker.scroll_preview_line_down(&mut editor, &location);
    assert_eq!(page(&editor), 2);
    picker.scroll_preview_line_down(&mut editor, &location);
    assert_eq!(page(&editor), 2);
    assert!(editor.error.is_none(), "quiet at the end");
    assert_eq!(picker.preview_scroll_offset, 0);
    // The page landed on is rasterized, once.
    let (inner, job) = picker.begin_preview(AREA, &mut editor, &location);
    assert_eq!(inner, Rect { x: 2, y: 1, width: 76, height: 12 });
    match job {
        Some(RasterJob::Document(id, request)) => {
            assert_eq!((id.id, request.page(), request.source.bytes.as_slice()), (4, 2, &b"/d/doc.pdf"[..]))
        }
        _ => panic!("the page is rasterized"),
    }
    assert!(picker.request_media_raster(&mut editor, &location).is_none());
    picker.scroll_preview_line_up(&mut editor, &location);
    picker.scroll_preview_line_up(&mut editor, &location);
    picker.scroll_preview_line_up(&mut editor, &location);
    assert_eq!(page(&editor), 0);
    // Without graphics nothing is rasterized.
    editor.documents[0].media.as_mut().unwrap().pending = None;
    picker.scroll_preview_line_down(&mut editor, &location);
    editor.graphics.mode = GraphicsMode::Off;
    assert!(picker.request_media_raster(&mut editor, &location).is_none());
}

#[test]
fn a_cached_pdf_preview_turns_pages() {
    let mut picker = picker_of(&["a"]).with_preview();
    let mut editor = editor();
    let file = path("/d/doc.pdf");
    let location: Option<FileLocation> = Some((PathOrId::from(&file), None));
    let ready = MediaPreview::Ready(Box::new(media(MediaKind::Pdf, None)));
    picker.insert_preview(path("/d/doc.pdf"), CachedPreview::Media(ready));
    picker.scroll_preview(-5, &mut editor, &location);
    picker.scroll_preview(40, &mut editor, &location);
    match picker.request_media_raster(&mut editor, &location) {
        Some(RasterJob::Cached(file, request)) => {
            assert_eq!((file.bytes.as_slice(), request.page()), (&b"/d/doc.pdf"[..], 1))
        }
        _ => panic!("the page is rasterized"),
    }
    let source = picker.get_preview(&editor, &location);
    let inner = Rect { x: 0, y: 0, width: 20, height: 10 };
    match picker.preview_content(&editor, source, None, inner) {
        PreviewContent::Media(pane) => {
            assert_eq!(pane.caption, "page 2 \u{2026}");
            assert_eq!(pane.area, Rect { height: 9, ..inner });
            assert!(pane.upscale && pane.pan == 0);
        }
        _ => panic!("a PDF is shown as an image"),
    }
}

#[test]
fn a_document_without_pages_reports_an_error() {
    let mut picker = picker_of(&["a"]).with_preview();
    let mut editor = editor();
    editor.documents.push(document(4, "/d/doc.pdf", Some(media(MediaKind::Pdf, Some(0)))));
    editor.documents[0].media.as_mut().unwrap().page = 3;
    let file = path("/d/doc.pdf");
    let location: Option<FileLocation> = Some((PathOrId::from(&file), None));
    picker.scroll_preview(1, &mut editor, &location);
    assert_eq!(editor.error.as_deref(), Some("no page 1 (document has 0)"));
}

#[test]
fn an_image_preview_pans() {
    let mut picker = picker_of(&["a"]).with_preview();
    let mut editor = editor();
    editor.documents.push(document(4, "/d/i.png", Some(media(MediaKind::Image, None))));
    let file = path("/d/i.png");
    let location: Option<FileLocation> = Some((PathOrId::from(&file), None));
    picker.scroll_preview(-5, &mut editor, &location);
    assert_eq!(picker.preview_scroll_offset, 0);
    picker.scroll_preview(8, &mut editor, &location);
    assert_eq!(picker.preview_scroll_offset, 8);
    let inner = Rect { x: 2, y: 1, width: 20, height: 11 };
    let mut surface = Vec::new();
    let shown = media(MediaKind::Image, None);
    let fits = Sizes { whole: (13, 10), wide: (20, 15) };
    let label = picker
        .draw_preview(&mut surface, &mut editor.graphics, &shown, inner, fits)
        .unwrap();
    // Five of fifteen rows are out of sight.
    assert_eq!(picker.preview_scroll_offset, 5);
    assert_eq!(label.content, "100\u{00d7}200 \u{2014} row 6/15");
    assert_eq!((label.x, label.y, label.max_width), (3, 11, 20));
    assert_eq!(surface.len(), 20 * 10);
    assert_eq!((surface[0].x, surface[0].y, surface[0].colour), (2, 1, (0, 0, 7)));
    // The selection changes: back to the top.
    picker.cursor = 1;
    picker.begin_preview(AREA, &mut editor, &location);
    assert_eq!((picker.preview_scroll_offset, picker.preview_scroll_cursor), (0, 1));
}

#[test]
fn the_report_of_the_matcher_is_taken_over() {
    let mut picker = picker_of(&["a", "b", "c"]);
    let counts = |picker: &mut Picker, changed: bool, running: bool, injectors: usize| {
        let status = Status { changed, running };
        let (layout, keys) = picker.render_matches(&status, injectors, AREA, false);
        assert!(keys.len() == 3 || layout.first > layout.end);
        layout.count.content
    };
    assert_eq!(counts(&mut picker, false, false, 0), "3/3");
    assert_eq!(counts(&mut picker, false, true, 0), "(running) 3/3");
    assert_eq!(counts(&mut picker, false, false, 1), "(running) 3/3");
    assert_eq!(counts(&mut picker, true, true, 2), "(running) 3/3");
    // The cursor is pulled back where the matches have changed, and only there.
    picker.cursor = 7;
    counts(&mut picker, false, false, 0);
    assert_eq!(picker.cursor, 7);
    counts(&mut picker, true, false, 0);
    assert_eq!(picker.cursor, 2);
    counts(&mut picker, true, false, 0);
    assert_eq!(picker.cursor, 2);
}

#[test]
fn handles_to_one_matcher_share_its_items() {
    let (matcher, injector) = Picker::stream(vec![Column::new("path")], || {});
    let other = injector.clone();
    let mut picker = Picker::with_stream(matcher, 0, injector);
    let later = picker.injector();
    assert!(other.push(10, &vec!["foo".to_string()], 0).is_ok());
    assert!(later.push(20, &vec!["bar".to_string()], 0).is_ok());
    assert_eq!(later.push(30, &vec!["baz".to_string()], 1), Err(InjectorShutdown));
    drop((other, later));
    settle(&mut picker, 2, 2);
    picker.handle_prompt_change(query(&[("path", "bar")]), false);
    assert_eq!(settle(&mut picker, 1, 2), vec![20]);
}

#[test]
fn without_modal_pickers_events_ignore_the_mode() {
    let events = [
        pressed(KeyCode::Esc),
        pressed(KeyCode::Char('j')),
        pressed(KeyCode::Char('i')),
        pressed(KeyCode::Down),
        pressed(KeyCode::Enter),
        chord(KeyCode::Char('t'), true, false),
        chord(KeyCode::Char('k'), false, true),
        Event::Paste,
        Event::Mouse,
        Event::Other,
    ];
    for event in events {
        let mut plain = picker_of(&["a", "b"]);
        let mut other = picker_of(&["a", "b"]);
        other.mode = PickerMode::Normal;
        let mut editors = (editor(), editor());
        let a = press(&mut plain, &mut editors.0, event);
        let b = press(&mut other, &mut editors.1, event);
        assert_eq!((a.consumed, a.to_prompt, a.close), (b.consumed, b.to_prompt, b.close));
        assert_eq!((a.custom, a.modal, a.set_line), (b.custom, b.modal, b.set_line));
        assert_eq!(a.open.is_some(), b.open.is_some());
        assert_eq!((plain.cursor, plain.show_preview), (other.cursor, other.show_preview));
        assert_eq!((plain.version, plain.preview_scroll_offset), (other.version, 0));
        assert_eq!((plain.mode, other.mode), (PickerMode::Insert, PickerMode::Normal));
    }
}

#[test]
fn few_keys_change_the_mode() {
    let mut picker = picker_of(&["a"]);
    let mut editor = editor();
    editor.modal = true;
    for code in [KeyCode::Char('i'), KeyCode::Enter, KeyCode::Down] {
        press(&mut picker, &mut editor, pressed(code));
        assert_eq!(picker.mode, PickerMode::Insert);
    }
    for back in ['i', 'a', '/'] {
        press(&mut picker, &mut editor, pressed(KeyCode::Esc));
        assert_eq!(picker.mode, PickerMode::Normal);
        press(&mut picker, &mut editor, pressed(KeyCode::Char('x')));
        press(&mut picker, &mut editor, Event::Paste);
        press(&mut picker, &mut editor, pressed(KeyCode::Esc));
        assert_eq!(picker.mode, PickerMode::Normal);
        press(&mut picker, &mut editor, pressed(KeyCode::Char(back)));
        assert_eq!(picker.mode, PickerMode::Insert);
    }
}

#[test]
fn rasters_find_their_way_back() {
    let mut picker = picker_of(&["a"]).with_preview();
    let mut editor = editor();
    editor.documents.push(document(3, "/d/other.pdf", None));
    editor.documents.push(document(4, "/d/doc.pdf", Some(media(MediaKind::Pdf, Some(3)))));
    let file = path("/d/doc.pdf");
    let location: Option<FileLocation> = Some((PathOrId::from(&file), None));
    let target = RasterTarget::Document(DocumentId { id: 4 });
    picker.scroll_preview(1, &mut editor, &location);
    assert!(picker.request_media_raster(&mut editor, &location).is_some());
    let done: Result<Raster, String> = Ok(raster(9));
    assert_eq!(picker.finish_raster(&mut editor, &target, 1, done), Ok(()));
    let shown = editor.documents[1].media.as_ref().unwrap();
    assert_eq!((shown.raster.id, shown.rastered, shown.pending), (9, 1, None));
    // A page that cannot be rendered is reported.
    picker.scroll_preview(1, &mut editor, &location);
    let failed = || -> Result<Raster, String> { Err("no such page".to_string()) };
    let outcome = picker.finish_raster(&mut editor, &target, 2, failed());
    assert_eq!(outcome, Err("no such page".to_string()));
    assert_eq!(editor.documents[1].media.as_ref().unwrap().page, 1);
    // What a rasterize was for may be gone.
    for id in [3, 5] {
        let gone = RasterTarget::Document(DocumentId { id });
        assert_eq!(picker.finish_raster(&mut editor, &gone, 1, failed()), Ok(()));
    }
    // The picker's own previews.
    let own = RasterTarget::Cached(path("/d/./own.pdf"));
    assert_eq!(picker.finish_raster(&mut editor, &own, 0, failed()), Ok(()));
    let waiting = MediaPreview::Rendering { kind: MediaKind::Pdf, started: false };
    picker.insert_preview(path("/d/own.pdf"), CachedPreview::Media(waiting));
    assert_eq!(picker.start_raster(0), Some(MediaKind::Pdf));
    assert_eq!(picker.start_raster(0), None);
    assert_eq!(picker.finish_raster(&mut editor, &own, 0, failed()), Ok(()));
    let ready = MediaPreview::Ready(Box::new(media(MediaKind::Pdf, None)));
    picker.insert_preview(path("/d/own.pdf"), CachedPreview::Media(ready));
    assert_eq!(picker.start_raster(0), None);
    assert!(picker.finish_raster(&mut editor, &own, 0, failed()).is_err());
    let done: Result<Raster, String> = Ok(raster(11));
    assert_eq!(picker.finish_raster(&mut editor, &own, 0, done), Ok(()));
    match &picker.preview_cache.entries[0].1 {
        CachedPreview::Media(MediaPreview::Ready(media)) => assert_eq!(media.raster.id, 11),
        _ => panic!("the preview is ready"),
    }
}

#[test]
fn a_picker_finds_just_the_items_it_was_given() {
    let items = vec![(40, vec!["x".to_string()]), (7, vec!["y".to_string()]), (40, vec!["z".to_string()])];
    let mut picker = Picker::new(vec![Column::new("path")], 0, &items, || {});
    let mut keys = settle(&mut picker, 3, 3);
    keys.sort();
    assert_eq!(keys, vec![7, 40, 40]);
    assert!(matches!(picker.selection(), Some(7 | 40)));
    picker.handle_prompt_change(query(&[("path", "z")]), false);
    assert_eq!(settle(&mut picker, 1, 3), vec![40]);
}
