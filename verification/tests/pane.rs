use helix_picker::draw::{
    available_cells, choose_fit, clamp_fit, colour_of, draw_raster, draw_raster_panned, fit_limits,
    text_width, Placement, Sizes,
};
use helix_picker::geometry::Rect;
use helix_picker::graphics::{GraphicsMode, GraphicsState};
use helix_picker::highlight::{highlight_spans, sorted_unique, CellSpan};
use helix_picker::layout::lay_out;
use helix_picker::key::PickerMode;
use helix_picker::media::{MediaKind, MediaState, Raster};
use helix_picker::pane::{
    alternate_label, anchoring, draw_media, highlighted_row, listing_labels, media_pane,
    natural_top, scroll_bar, scroll_thumb, settle_scroll, span_to_measure, what_is_shown,
    Anchoring, Scrolled, Shown, TextRole, Thumb, ViewPosition,
};
use helix_picker::path::FilePath;
use helix_picker::placeholder::placeholder_symbol;
use helix_picker::preview::{
    preview_of_document, preview_of_head, preview_of_listing, probe_file, CachedPreview, Document,
    DocumentId, FileMeta, MediaPreview, Preview, Probe,
};
use helix_picker::query::{escape_percent, PickerQuery};
use std::time::SystemTime;

fn path(text: &str) -> FilePath {
    FilePath::from_text(text)
}

fn raster(id: u32) -> Raster {
    Raster { png: path("/tmp/p.png"), width: 640, height: 480, id }
}

fn kitty() -> GraphicsState {
    GraphicsState { mode: GraphicsMode::Kitty, ..Default::default() }
}

fn media(kind: MediaKind, page_count: Option<usize>) -> MediaState {
    MediaState::open(kind, path("/d/x"), SystemTime::UNIX_EPOCH, raster(3), page_count)
}

const AREA: Rect = Rect { x: 10, y: 5, width: 30, height: 8 };

fn both(fit: (u16, u16)) -> Sizes {
    Sizes { whole: fit, wide: fit }
}

#[test]
fn rectangles_are_clipped() {
    assert_eq!(AREA.clip_left(4), Rect { x: 14, width: 26, ..AREA });
    assert_eq!(AREA.clip_left(99), Rect { x: 40, width: 0, ..AREA });
    assert_eq!(AREA.clip_right(4), Rect { width: 26, ..AREA });
    assert_eq!(AREA.clip_top(3), Rect { y: 8, height: 5, ..AREA });
    assert_eq!(AREA.clip_top(9), Rect { y: 13, height: 0, ..AREA });
    assert_eq!(AREA.clip_bottom(9), Rect { height: 0, ..AREA });
    assert_eq!(AREA.inside_border(), Rect { x: 11, y: 6, width: 28, height: 6 });
    assert_eq!(AREA.inside_gap(), Rect { x: 11, width: 28, ..AREA });
    let thin = Rect { width: 1, height: 1, ..AREA };
    assert_eq!(thin.inside_border(), Rect { x: 11, y: 6, width: 0, height: 0 });
    assert_eq!(thin.inside_gap(), Rect { x: 0, y: 0, width: 0, height: 0 });
}

#[test]
fn an_image_is_drawn_centred() {
    let mut surface = Vec::new();
    let mut graphics = kitty();
    let area = draw_raster(&mut surface, &mut graphics, AREA, &raster(0x0A0B0C), (20, 5));
    assert_eq!(area, Some(Rect { x: 15, y: 6, width: 20, height: 5 }));
    assert_eq!(surface.len(), 100);
    let cell = &surface[23];
    assert_eq!((cell.x, cell.y), (18, 7));
    assert_eq!(Some(cell.symbol), placeholder_symbol(1, 3));
    assert_eq!(cell.colour, (10, 11, 12));
    assert_eq!(graphics.take_pending().len(), 1);
}

#[test]
fn a_panned_image_is_cropped() {
    let mut surface = Vec::new();
    let drawn =
        draw_raster_panned(&mut surface, &mut kitty(), AREA, &raster(1), both((30, 20)), 5).unwrap();
    assert_eq!(drawn, Placement { area: AREA, max_pan: 12 });
    assert_eq!(surface.len(), 30 * 8);
    assert_eq!(Some(surface[0].symbol), placeholder_symbol(5, 0));
    // Past the bottom the last window is shown.
    let mut surface = Vec::new();
    draw_raster_panned(&mut surface, &mut kitty(), AREA, &raster(1), both((30, 20)), 500);
    assert_eq!(Some(surface[0].symbol), placeholder_symbol(12, 0));
    // Rows that no diacritic numbers are left out.
    let mut surface = Vec::new();
    draw_raster_panned(&mut surface, &mut kitty(), AREA, &raster(1), both((2, 400)), 292);
    assert_eq!(surface.len(), 2 * 5);
}

#[test]
fn nothing_is_drawn_where_nothing_can_be() {
    let mut surface = Vec::new();
    let mut off = GraphicsState::default();
    assert_eq!(draw_raster(&mut surface, &mut off, AREA, &raster(1), (2, 2)), None);
    let empty = Rect { width: 0, ..AREA };
    assert_eq!(draw_raster(&mut surface, &mut kitty(), empty, &raster(1), (2, 2)), None);
    assert!(surface.is_empty());
    assert_eq!(available_cells(empty), None);
    assert_eq!(available_cells(AREA), Some(Sizes { whole: (30, 8), wide: (30, u16::MAX) }));
}

#[test]
fn an_image_that_fits_is_not_panned() {
    // Rounding may tell the two fits apart, though the image fits in either.
    let fits = Sizes { whole: (29, 8), wide: (30, 8) };
    let mut still = Vec::new();
    let mut panned = Vec::new();
    let there = draw_raster_panned(&mut still, &mut kitty(), AREA, &raster(1), fits, 0);
    let drawn = draw_raster_panned(&mut panned, &mut kitty(), AREA, &raster(1), fits, 5);
    assert_eq!(drawn, there);
    assert_eq!(drawn.unwrap().max_pan, 0);
    assert_eq!((still.len(), panned.len()), (29 * 8, 29 * 8));
    for (a, b) in still.iter().zip(&panned) {
        assert_eq!((a.x, a.y, a.symbol, a.colour), (b.x, b.y, b.symbol, b.colour));
    }
    // A taller one is fitted to the width once it is panned.
    let tall = Sizes { whole: (10, 8), wide: (30, 24) };
    assert_eq!(choose_fit(AREA, tall, 0), (10, 8));
    assert_eq!(choose_fit(AREA, tall, 1), (30, 24));
    assert_eq!(choose_fit(AREA, fits, 1), (29, 8));
}

#[test]
fn fits_stay_within_their_limits() {
    assert_eq!(fit_limits((30, u16::MAX)), (30, 297));
    assert_eq!(clamp_fit(0, 500, (30, 297)), (1, 297));
    assert_eq!(clamp_fit(31, 5, (30, 297)), (30, 5));
    assert_eq!(clamp_fit(7, 7, (0, 0)), (1, 1));
    assert_eq!(colour_of(0xFF8001), (255, 128, 1));
    assert_eq!(colour_of(0x12FF8001), (255, 128, 1));
}

#[test]
fn captions_are_measured_in_columns() {
    assert_eq!(text_width("100\u{00d7}200"), 7);
    assert_eq!(text_width("\u{4e00}\u{4e00}"), 4);
    assert_eq!(text_width(""), 0);
    assert_eq!(text_width(&"x".repeat(70000)), u16::MAX);
}

#[test]
fn captions_of_media() {
    let mut pdf = media(MediaKind::Pdf, Some(12));
    assert_eq!(media_pane(&pdf, AREA, 3).caption, "page 1/12");
    pdf.goto_page(4).unwrap();
    let pane = media_pane(&pdf, AREA, 3);
    assert_eq!(pane.caption, "page 5/12 \u{2026}");
    assert_eq!((pane.pan, pane.upscale), (0, true));
    assert_eq!(pane.area, Rect { height: 7, ..AREA });
    let image = media(MediaKind::Image, None);
    let pane = media_pane(&image, AREA, 3);
    assert_eq!((pane.caption.as_str(), pane.pan, pane.upscale), ("640\u{00d7}480", 3, false));
    assert_eq!(media_pane(&image, AREA, -3).pan, 0);
    assert_eq!(media_pane(&image, AREA, 70000).pan, u16::MAX);
}

#[test]
fn without_graphics_a_line_says_so() {
    let mut surface = Vec::new();
    let mut off = GraphicsState::default();
    let image = media(MediaKind::Image, None);
    let wide = Rect { width: 39, ..AREA };
    let drawn = draw_media(&mut surface, &mut off, &image, wide, 0, both((1, 1)));
    let label = drawn.label.unwrap();
    assert_eq!(label.content, "<No image support in this terminal>");
    assert_eq!((label.x, label.y, label.max_width), (12, 9, 39));
    assert!(drawn.scroll.is_none() && surface.is_empty());
    // An image that fits has no row to tell.
    let drawn = draw_media(&mut surface, &mut kitty(), &image, wide, 4, both((10, 5)));
    assert_eq!(drawn.scroll, Some(0));
    assert_eq!(drawn.label.unwrap().content, "640\u{00d7}480");
    let flat = Rect { height: 1, ..AREA };
    let drawn = draw_media(&mut surface, &mut kitty(), &image, flat, 4, both((10, 5)));
    assert!(drawn.label.is_none() && drawn.scroll.is_none());
}

#[test]
fn a_stand_in_is_centred_by_its_bytes() {
    let label = alternate_label("<Rendering PDF\u{2026}>", AREA);
    // Eighteen bytes, though only sixteen characters.
    assert_eq!((label.x, label.y), (16, 9));
    assert_eq!(label.role, TextRole::Plain);
    let label = alternate_label("<File too large to preview, by far>", AREA);
    assert_eq!(label.x, 10);
}

#[test]
fn listings_fill_the_pane() {
    let listing: Vec<(String, bool)> =
        (0..20).map(|i| (format!("f{i}"), i % 2 == 0)).collect();
    let labels = listing_labels(&listing, AREA);
    assert_eq!(labels.len(), 8);
    assert_eq!((labels[7].x, labels[7].y, labels[7].content.as_str()), (10, 12, "f7"));
    assert_eq!(labels[7].role, TextRole::Plain);
    assert_eq!(labels[6].role, TextRole::Directory);
    assert_eq!(listing_labels(&listing[..2].to_vec(), AREA).len(), 2);
}

#[test]
fn ranges_are_centred_if_they_fit() {
    assert_eq!(anchoring(None, 10), Anchoring::Top);
    assert_eq!(anchoring(Some((20, 25)), 10), Anchoring::Centred { start: 20, middle: 22, up: 5 });
    assert_eq!(anchoring(Some((20, 30)), 10), Anchoring::Line { start: 20 });
    let centred = ViewPosition { anchor: 70, vertical_offset: 2 };
    let plan = anchoring(Some((20, 25)), 10);
    assert_eq!(natural_top(plan, 90, centred), centred);
    assert_eq!(natural_top(plan, 60, centred), ViewPosition { anchor: 60, vertical_offset: 0 });
    let line = anchoring(Some((20, 30)), 10);
    assert_eq!(natural_top(line, 60, centred), ViewPosition { anchor: 60, vertical_offset: 0 });
    let top = ViewPosition { anchor: 0, vertical_offset: 0 };
    assert_eq!(natural_top(Anchoring::Top, 60, centred), top);
}

#[test]
fn scrolling_settles_against_the_text() {
    let natural = ViewPosition { anchor: 100, vertical_offset: 1 };
    let moved = ViewPosition { anchor: 180, vertical_offset: 2 };
    // No scroll keeps the natural top.
    assert_eq!(span_to_measure(100, 0, 180, 50), None);
    assert_eq!(
        settle_scroll(natural, 0, moved, 50, None),
        Scrolled { top: natural, scroll: 0, at_bottom: false }
    );
    // In the middle.
    assert_eq!(span_to_measure(100, 4, 180, 300), None);
    assert_eq!(
        settle_scroll(natural, 4, moved, 300, None),
        Scrolled { top: moved, scroll: 4, at_bottom: false }
    );
    // Just at the bottom, and past it.
    let bottom = ViewPosition { anchor: 180, vertical_offset: 0 };
    assert_eq!(span_to_measure(100, 4, 180, 180), None);
    assert_eq!(
        settle_scroll(natural, 4, moved, 180, None),
        Scrolled { top: bottom, scroll: 4, at_bottom: true }
    );
    assert_eq!(span_to_measure(100, 9, 180, 150), Some((100, 150)));
    let bottom = ViewPosition { anchor: 150, vertical_offset: 0 };
    assert_eq!(
        settle_scroll(natural, 9, moved, 150, Some(6)),
        Scrolled { top: bottom, scroll: 6, at_bottom: true }
    );
    assert_eq!(settle_scroll(natural, 9, moved, 150, None).scroll, 9);
    assert_eq!(settle_scroll(natural, 5, moved, 150, Some(6)).scroll, 5);
    // Past the top.
    let start = ViewPosition { anchor: 0, vertical_offset: 0 };
    assert_eq!(span_to_measure(100, -9, 0, 150), Some((0, 100)));
    assert_eq!(
        settle_scroll(natural, -9, start, 150, Some(7)),
        Scrolled { top: start, scroll: -7, at_bottom: false }
    );
    assert_eq!(settle_scroll(natural, -9, start, 150, None).scroll, -9);
}

#[test]
fn the_scroll_thumb() {
    assert_eq!(scroll_thumb(10, 10, 0, false), None);
    assert_eq!(scroll_thumb(10, 20, 0, false), Some(Thumb { start: 0, len: 5 }));
    assert_eq!(scroll_thumb(10, 20, 5, false), Some(Thumb { start: 2, len: 5 }));
    assert_eq!(scroll_thumb(10, 20, 19, false), Some(Thumb { start: 5, len: 5 }));
    assert_eq!(scroll_thumb(10, 20, 3, true), Some(Thumb { start: 5, len: 5 }));
    assert_eq!(scroll_thumb(10, 11, 0, false), Some(Thumb { start: 0, len: 10 }));
    assert_eq!(scroll_thumb(10, 100_000, 99_999, false), Some(Thumb { start: 9, len: 1 }));
    assert_eq!(scroll_thumb(0, 5, 0, false), Some(Thumb { start: 0, len: 0 }));
    let bar = scroll_bar(AREA, Thumb { start: 2, len: 3 });
    assert_eq!(bar.len(), 8);
    assert!(bar.iter().all(|cell| cell.x == 39));
    assert_eq!((bar[0].y, bar[7].y), (5, 12));
    let lit: Vec<bool> = bar.iter().map(|cell| cell.thumb).collect();
    assert_eq!(lit, vec![false, false, true, true, true, false, false, false]);
}

#[test]
fn the_lines_of_a_range_are_picked_out() {
    let row = Some(Rect { x: 10, y: 9, width: 30, height: 1 });
    assert_eq!(highlighted_row(Some((3, 5)), 3, AREA, 9), row);
    assert_eq!(highlighted_row(Some((3, 5)), 5, AREA, 9), row);
    assert_eq!(highlighted_row(Some((3, 5)), 6, AREA, 9), None);
    assert_eq!(highlighted_row(None, 3, AREA, 9), None);
}

fn text_document(line_count: usize) -> Document {
    Document { id: DocumentId { id: 1 }, path: None, media: None, line_count, has_language: true, highlighted: true }
}

#[test]
fn previews_take_their_form() {
    let doc = text_document(10);
    let open = Preview::EditorDocument(&doc);
    assert_eq!(what_is_shown(&open, None), Shown::Text);
    assert_eq!(what_is_shown(&open, Some((2, 10))), Shown::Text);
    assert_eq!(what_is_shown(&open, Some((2, 11))), Shown::Alternate);
    assert_eq!(what_is_shown(&open, Some((3, 2))), Shown::Alternate);
    assert_eq!(open.placeholder(), "<Invalid file location>");
    let mut image = text_document(1);
    image.media = Some(media(MediaKind::Image, None));
    assert_eq!(what_is_shown(&Preview::EditorDocument(&image), Some((3, 2))), Shown::Media);
    let cases = [
        (CachedPreview::Document(Box::new(text_document(3))), Shown::Text, "<Invalid file location>"),
        (CachedPreview::Directory(vec![]), Shown::Listing, "<Invalid directory location>"),
        (
            CachedPreview::Media(MediaPreview::Rendering { kind: MediaKind::Pdf, started: true }),
            Shown::Alternate,
            "<Rendering PDF\u{2026}>",
        ),
        (
            CachedPreview::Media(MediaPreview::Rendering { kind: MediaKind::Image, started: false }),
            Shown::Alternate,
            "<Rendering image\u{2026}>",
        ),
        (
            CachedPreview::Media(MediaPreview::Ready(Box::new(media(MediaKind::Pdf, None)))),
            Shown::Media,
            "<Invalid file location>",
        ),
        (
            CachedPreview::Media(MediaPreview::Unavailable("<broken>".to_string())),
            Shown::Alternate,
            "<broken>",
        ),
        (CachedPreview::Binary, Shown::Alternate, "<Binary file>"),
        (CachedPreview::LargeFile, Shown::Alternate, "<File too large to preview>"),
        (CachedPreview::NotFound, Shown::Alternate, "<File not found>"),
    ];
    for (cached, shown, alternate) in &cases {
        let preview = Preview::Cached(cached);
        assert_eq!(what_is_shown(&preview, None), *shown);
        assert_eq!(preview.placeholder(), *alternate);
    }
}

#[test]
fn files_are_probed() {
    let meta = |is_dir, is_file, len| Some(FileMeta { is_dir, is_file, len });
    let probe = |name: &str, meta| probe_file(&path(name), meta, GraphicsMode::Kitty);
    assert!(matches!(probe("/a", None), Probe::Made(CachedPreview::NotFound)));
    assert!(matches!(probe("/a.png", meta(true, false, 0)), Probe::List));
    assert!(matches!(probe("/a", meta(false, false, 0)), Probe::Made(CachedPreview::NotFound)));
    assert!(matches!(probe("/a", meta(false, true, 10 * 1024 * 1024)), Probe::ReadHead));
    assert!(matches!(
        probe("/a", meta(false, true, 10 * 1024 * 1024 + 1)),
        Probe::Made(CachedPreview::LargeFile)
    ));
    // Media may be of any size.
    assert!(matches!(
        probe("/a.PDF", meta(false, true, u64::MAX)),
        Probe::Made(CachedPreview::Media(MediaPreview::Rendering {
            kind: MediaKind::Pdf,
            started: false
        }))
    ));
    match probe_file(&path("/a.png"), meta(false, true, 1), GraphicsMode::Off) {
        Probe::Made(CachedPreview::Media(MediaPreview::Unavailable(reason))) => {
            assert_eq!(reason, "<No image support in this terminal>")
        }
        _ => panic!("images cannot be shown"),
    }
    assert!(matches!(preview_of_head(None), Some(CachedPreview::NotFound)));
    assert!(matches!(preview_of_head(Some(true)), Some(CachedPreview::Binary)));
    assert!(preview_of_head(Some(false)).is_none());
    assert!(matches!(preview_of_document(None), CachedPreview::NotFound));
    assert!(matches!(
        preview_of_document(Some(text_document(7))),
        CachedPreview::Document(doc) if doc.line_count == 7
    ));
}

#[test]
fn directories_are_listed() {
    let dir = path("/d");
    assert!(matches!(preview_of_listing(&dir, None), CachedPreview::NotFound));
    let files = vec![
        (path("/d/a"), false),
        (path("/d/sub/deep"), true),
        (path("/other/b"), true),
        (path("/"), true),
        (FilePath { bytes: vec![b'/', b'd', b'/', 0xFF] }, false),
    ];
    match preview_of_listing(&dir, Some(files)) {
        CachedPreview::Directory(listing) => assert_eq!(
            listing,
            vec![
                ("a".to_string(), false),
                ("sub/deep/".to_string(), true),
                ("b/".to_string(), true),
                ("\u{FFFD}".to_string(), false),
            ]
        ),
        _ => panic!("a directory is listed"),
    }
}

#[test]
fn matches_are_picked_out_by_cluster() {
    let span = |text: &str, style| CellSpan { content: text.to_string(), style, lit: style + 100 };
    // The second cluster is a letter with a combining mark.
    let spans = vec![span("ae\u{301}b", 1), span("cd", 2)];
    let (runs, width) = highlight_spans(&spans, &vec![3, 1, 3], 1);
    let runs: Vec<(&str, u64)> = runs.iter().map(|r| (r.content.as_str(), r.style)).collect();
    assert_eq!(runs, vec![("a", 1), ("e\u{301}", 101), ("b", 1), ("c", 102), ("d", 2)]);
    assert_eq!(width, 5);
    let (runs, width) = highlight_spans(&vec![], &vec![0], 9);
    assert_eq!((runs.len(), runs[0].content.as_str(), runs[0].style, width), (1, "", 9, 0));
    let (runs, _) = highlight_spans(&vec![span("ab", 1), span("", 2), span("c", 1)], &vec![], 1);
    assert_eq!((runs.len(), runs[0].content.as_str()), (1, "abc"));
    assert_eq!(sorted_unique(&vec![5, 1, 5, 0, 1]), vec![0, 1, 5]);
}

#[test]
fn queries_are_compared_by_what_they_ask() {
    let query = |fields: &[(&str, &str)]| PickerQuery {
        fields: fields.iter().map(|(n, t)| (n.to_string(), t.to_string())).collect(),
    };
    let ab = query(&[("a", "1"), ("b", "2")]);
    assert!(ab.same(&query(&[("b", "2"), ("a", "1")])));
    assert!(!ab.same(&query(&[("a", "1")])));
    assert!(!query(&[("a", "1")]).same(&ab));
    assert!(!ab.same(&query(&[("a", "1"), ("b", "")])));
    assert!(PickerQuery::new().same(&query(&[])));
    assert!(!PickerQuery::new().same(&query(&[("a", "")])));
    assert_eq!(ab.get("b"), Some("2"));
    assert_eq!(ab.get("c"), None);
    assert_eq!(ab.text_for("c"), "");
    assert_eq!(escape_percent("a%%b\\%"), "a\\%\\%b\\\\%");
}

#[test]
fn a_tiny_picker_still_has_a_layout() {
    let area = Rect { x: 0, y: 0, width: 3, height: 3 };
    let layout = lay_out(area, true, PickerMode::Insert, true, 4_000_000_000, 4_294_967_295, 7, 1);
    assert_eq!(layout.count.content, "(running) 4000000000/4294967295");
    assert_eq!((layout.count.x, layout.count.max_width), (0, 0));
    assert_eq!((layout.first, layout.end, layout.selected), (7, 7, 0));
    assert_eq!(layout.line.width, 0);
    assert_eq!(layout.list.height, 0);
}
