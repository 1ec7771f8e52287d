use helix_picker::graphics::{
    base64, delete_escape, detect_graphics_mode, transmit_escape, GraphicsMode, GraphicsState,
    ImageRenderingConfig, MAX_LOADED_IMAGES,
};
use helix_picker::media::{detect_kind, MediaKind, MediaState, PageError, Raster};
use helix_picker::path::FilePath;
use helix_picker::placeholder::{placeholder_symbol, PLACEHOLDER, ROW_COLUMN_DIACRITICS};
use std::time::SystemTime;

#[test]
fn base64_known_vectors() {
    assert_eq!(base64(b""), "");
    assert_eq!(base64(b"f"), "Zg==");
    assert_eq!(base64(b"fo"), "Zm8=");
    assert_eq!(base64(b"foo"), "Zm9v");
    assert_eq!(base64(b"foob"), "Zm9vYg==");
    assert_eq!(base64(b"fooba"), "Zm9vYmE=");
    assert_eq!(base64(b"foobar"), "Zm9vYmFy");
    assert_eq!(base64(b"/tmp/a.png"), "L3RtcC9hLnBuZw==");
}

#[test]
fn base64_uses_the_whole_alphabet() {
    assert_eq!(base64(&[0xFB, 0xFF, 0xBF]), "+/+/");
    assert_eq!(base64(&[0x00, 0x10, 0x83, 0x10, 0x51, 0x87]), "ABCDEFGH");
    // Four characters for each three bytes begun.
    for len in 0..20usize {
        assert_eq!(base64(&vec![7u8; len]).len(), 4 * ((len + 2) / 3));
    }
}

fn test_raster(id: u32) -> Raster {
    Raster { png: FilePath::from_text("/tmp/page.png"), width: 1000, height: 1000, id }
}

fn kitty() -> GraphicsState {
    GraphicsState { mode: GraphicsMode::Kitty, ..Default::default() }
}

#[test]
fn paging_frees_images_it_has_left_behind() {
    let mut state = kitty();
    let pages = MAX_LOADED_IMAGES as u32 + 2;
    let mut escapes = String::new();
    // One new image per frame, as paging through a PDF does.
    for id in 1..=pages {
        assert!(state.ensure_placement(&test_raster(id), 10, 10));
        escapes.extend(state.take_pending());
    }
    assert!(state.placements.len() <= MAX_LOADED_IMAGES);
    // The page on screen is still loaded, the first pages were freed.
    assert!(state.placements.contains_key(&pages));
    assert!(!state.placements.contains_key(&1));
    assert!(escapes.contains("a=d,d=I,i=1,"), "no delete for image 1");
}

#[test]
fn images_drawn_this_frame_are_kept() {
    let mut state = kitty();
    // Many media splits on screen at once: all of them are drawn in the
    // same frame, so none may be evicted even past the limit.
    let ids = 1..=(MAX_LOADED_IMAGES as u32 + 2);
    for id in ids.clone() {
        state.ensure_placement(&test_raster(id), 10, 10);
    }
    assert_eq!(state.placements.len(), ids.count());
    assert!(!state.take_pending().iter().any(|e| e.contains("a=d")));
}

#[test]
fn the_oldest_image_is_freed_first() {
    let mut state = kitty();
    for id in [5u32, 3, 4, 2] {
        state.ensure_placement(&test_raster(id), 10, 10);
        state.take_pending();
    }
    // Drawing 5 again makes 3 the oldest.
    state.ensure_placement(&test_raster(5), 10, 10);
    assert!(state.take_pending().is_empty(), "a loaded image is not sent again");
    state.ensure_placement(&test_raster(9), 10, 10);
    let escapes = state.take_pending();
    assert_eq!(escapes.len(), 2);
    assert_eq!(escapes[1], "\x1b_Ga=d,d=I,i=3,q=2\x1b\\");
    let mut loaded: Vec<u32> = state.placements.keys().copied().collect();
    loaded.sort();
    assert_eq!(loaded, vec![2, 4, 5, 9]);
}

#[test]
fn freeing_twice_frees_nothing_more() {
    let mut state = kitty();
    for id in 1..=9u32 {
        state.ensure_placement(&test_raster(id), 10, 10);
    }
    state.take_pending();
    state.evict_unused();
    assert_eq!(state.placements.len(), MAX_LOADED_IMAGES);
    let escapes = state.take_pending();
    assert_eq!(escapes.len(), 9 - MAX_LOADED_IMAGES);
    assert_eq!(escapes[0], delete_escape(1));
    assert_eq!(escapes[4], delete_escape(5));
    state.evict_unused();
    assert!(state.take_pending().is_empty());
    assert_eq!(state.placements.len(), MAX_LOADED_IMAGES);
}

/// Decodes base64 the way that every reader of it does.
fn decoded(text: &str) -> Vec<u8> {
    let alphabet = "ABCDEFGHIJKLMNOPQRSTUVWXYZabcdefghijklmnopqrstuvwxyz0123456789+/";
    let mut bits: Vec<u8> = Vec::new();
    for c in text.trim_end_matches('=').chars() {
        let value = alphabet.find(c).unwrap() as u8;
        bits.extend((0..6).rev().map(|bit| value >> bit & 1));
    }
    bits.chunks_exact(8).map(|byte| byte.iter().fold(0, |n, bit| n << 1 | bit)).collect()
}

#[test]
fn base64_decodes_to_what_was_encoded() {
    let bytes: Vec<u8> = (0..=255).rev().collect();
    for len in 0..=255 {
        let text = base64(&bytes[..len]);
        assert_eq!(decoded(&text), &bytes[..len]);
        assert_eq!(text.matches('=').count(), (3 - len % 3) % 3);
        assert_eq!(text.trim_end_matches('=').matches('=').count(), 0);
        // Whole groups can be encoded apart.
        let whole = len / 3 * 3;
        assert_eq!(text, base64(&bytes[..whole]) + &base64(&bytes[whole..len]));
    }
}

#[test]
fn base64_tells_bytes_apart() {
    let samples: Vec<Vec<u8>> = vec![
        vec![],
        vec![0],
        vec![0, 0],
        vec![0, 0, 0],
        vec![0, 0, 0, 0],
        vec![1],
        vec![0, 1],
        vec![0, 0, 1],
        vec![255],
        vec![255, 255, 255],
    ];
    for (i, a) in samples.iter().enumerate() {
        for (j, b) in samples.iter().enumerate() {
            assert_eq!(base64(a) == base64(b), i == j);
        }
    }
}

#[test]
fn a_changed_size_is_sent_again() {
    let mut state = kitty();
    state.ensure_placement(&test_raster(1), 10, 10);
    state.ensure_placement(&test_raster(1), 10, 11);
    assert_eq!(state.take_pending().len(), 2);
    state.ensure_placement(&test_raster(1), 10, 11);
    assert!(state.take_pending().is_empty());
    state.reset();
    state.ensure_placement(&test_raster(1), 10, 11);
    assert_eq!(state.take_pending().len(), 1);
}

#[test]
fn without_graphics_nothing_is_placed() {
    let mut state = GraphicsState::default();
    assert!(!state.ensure_placement(&test_raster(1), 10, 10));
    assert!(state.take_pending().is_empty());
    assert_eq!(state.placements.len(), 0);
}

#[test]
fn escapes_spell_the_protocol() {
    let raster = Raster { png: FilePath::from_text("/tmp/a.png"), width: 1, height: 1, id: 77 };
    assert_eq!(
        transmit_escape(&raster, 12, 5),
        "\x1b_Ga=T,U=1,q=2,f=100,t=f,i=77,c=12,r=5;L3RtcC9hLnBuZw==\x1b\\"
    );
    assert_eq!(delete_escape(1234567890), "\x1b_Ga=d,d=I,i=1234567890,q=2\x1b\\");
    // What is not UTF-8 is replaced before it is sent.
    let odd = Raster { png: FilePath { bytes: vec![b'a', 0xFF] }, width: 1, height: 1, id: 1 };
    assert_eq!(
        transmit_escape(&odd, 1, 1),
        format!("\x1b_Ga=T,U=1,q=2,f=100,t=f,i=1,c=1,r=1;{}\x1b\\", base64("a\u{FFFD}".as_bytes()))
    );
}

#[test]
fn terminals_are_recognized() {
    let (auto, off, forced) = (
        ImageRenderingConfig::Auto,
        ImageRenderingConfig::Disabled,
        ImageRenderingConfig::Kitty,
    );
    assert_eq!(detect_graphics_mode(auto, "xterm-KITTY", "", false), GraphicsMode::Kitty);
    assert_eq!(detect_graphics_mode(auto, "", "Ghostty", false), GraphicsMode::Kitty);
    assert_eq!(detect_graphics_mode(auto, "xterm-256color", "WezTerm", false), GraphicsMode::Off);
    assert_eq!(detect_graphics_mode(auto, "xterm", "", true), GraphicsMode::Kitty);
    assert_eq!(detect_graphics_mode(off, "xterm-kitty", "", true), GraphicsMode::Off);
    assert_eq!(detect_graphics_mode(forced, "", "", false), GraphicsMode::Kitty);
    assert_eq!(ImageRenderingConfig::default(), auto);
    assert_eq!(GraphicsMode::default(), GraphicsMode::Off);
}

fn pdf_state(page_count: Option<usize>) -> MediaState {
    MediaState {
        kind: MediaKind::Pdf,
        source: FilePath::from_text("/nonexistent.pdf"),
        mtime: SystemTime::UNIX_EPOCH,
        page: 0,
        page_count,
        rastered: 0,
        pending: None,
        raster: test_raster(1),
    }
}

#[test]
fn paging_rasterizes_only_the_page_landed_on() {
    let mut state = pdf_state(Some(10));
    state.goto_page(1).unwrap();
    let request = state.take_raster_request().expect("page 2 rasterizes");
    assert_eq!(request.page(), 1);
    // Holding `j`: more pages go by while that rasterize is still running.
    for page in 2..=5 {
        state.goto_page(page).unwrap();
    }
    assert!(
        state.take_raster_request().is_none(),
        "only one rasterize runs at a time"
    );
    // Its result is for a page long gone, so it is dropped, not displayed.
    state.finish_raster(1, Ok::<Raster, String>(test_raster(2))).unwrap();
    assert_eq!(state.raster.id, 1);
    assert!(state.is_rastering());
    // The next frame picks up the page actually landed on.
    let request = state.take_raster_request().expect("page 6 rasterizes");
    assert_eq!(request.page(), 5);
    state.finish_raster(5, Ok::<Raster, String>(test_raster(2))).unwrap();
    assert_eq!(state.raster.id, 2);
    assert!(!state.is_rastering());
    assert!(state.take_raster_request().is_none());
}

#[test]
fn a_page_that_cannot_be_rendered_falls_back() {
    // Without `pdfinfo` there is no page count to range check against, so
    // paging past the end only fails once the rasterize comes back.
    let mut state = pdf_state(None);
    state.goto_page(4).unwrap();
    let request = state.take_raster_request().unwrap();
    assert!(state
        .finish_raster(request.page(), Err("no page 5"))
        .is_err());
    assert_eq!(state.page, 0, "stays on the page it can still show");
    assert!(!state.is_rastering());

    // With a page count it is rejected up front instead.
    let mut state = pdf_state(Some(3));
    assert!(state.goto_page(3).is_err());
    assert_eq!(state.page, 0);
}

#[test]
fn page_errors_in_words() {
    let mut state = pdf_state(Some(3));
    let err = state.goto_page(11).unwrap_err();
    assert_eq!(err, PageError::NoSuchPage { page: 11, count: 3 });
    assert_eq!(err.message(), "no page 12 (document has 3)");
    let mut image = MediaState::open(
        MediaKind::Image,
        FilePath::from_text("/a.gif"),
        SystemTime::UNIX_EPOCH,
        test_raster(4),
        Some(3),
    );
    // There are no pages of an image to count.
    assert_eq!((image.page, image.page_count, image.is_rastering()), (0, None, false));
    let err = image.goto_page(0).unwrap_err();
    assert_eq!(err, PageError::NotPaginated);
    assert_eq!(err.message(), "not a paginated document");
    assert!(image.take_raster_request().is_none());
}

#[test]
fn ensuring_a_raster_blocks_for_the_current_page() {
    let mut state = pdf_state(Some(9));
    // Nothing is stale: the page is not rendered.
    assert!(state.ensure_raster(|_, _, _| Err::<Raster, &str>("not asked for")).is_ok());
    state.goto_page(6).unwrap();
    let done = state.ensure_raster(|source: &FilePath, mtime: SystemTime, page: usize| {
        assert_eq!(source.bytes, b"/nonexistent.pdf");
        assert_eq!(mtime, SystemTime::UNIX_EPOCH);
        assert_eq!(page, 6);
        Ok::<Raster, String>(test_raster(8))
    });
    assert!(done.is_ok());
    assert_eq!((state.page, state.rastered, state.raster.id), (6, 6, 8));
    state.goto_page(7).unwrap();
    assert_eq!(state.ensure_raster(|_, _, _| Err::<Raster, &str>("broken")), Err("broken"));
    assert_eq!((state.page, state.rastered, state.raster.id), (6, 6, 8));
}

#[test]
fn a_request_renders_its_page() {
    let mut state = pdf_state(None);
    state.goto_page(2).unwrap();
    let request = state.take_raster_request().unwrap();
    let raster = request.run(|source: &FilePath, _: SystemTime, page: usize| {
        Ok::<Raster, String>(Raster {
            png: source.duplicate(),
            width: 1,
            height: 1,
            id: page as u32,
        })
    });
    let raster = raster.unwrap();
    assert_eq!(raster.id, 2);
    assert_eq!(raster.png.bytes, b"/nonexistent.pdf");
}

#[test]
fn media_is_recognized_by_extension() {
    let kind = |name: &str| detect_kind(&FilePath::from_text(name));
    assert_eq!(kind("/a/b.pdf"), Some(MediaKind::Pdf));
    assert_eq!(kind("/a/b.PdF"), Some(MediaKind::Pdf));
    for ext in [
        "png", "jpg", "jpeg", "gif", "bmp", "webp", "tif", "tiff", "ico", "heic", "heif", "avif",
        "svg", "SVG",
    ] {
        assert_eq!(kind(&format!("x.{ext}")), Some(MediaKind::Image), "{ext}");
    }
    assert_eq!(kind("/a/b.rs"), None);
    assert_eq!(kind("/a.pdf/b"), None);
    assert_eq!(kind(".png"), None);
    assert_eq!(kind("png"), None);
    assert_eq!(kind("a.png/"), Some(MediaKind::Image));
    assert_eq!(detect_kind(&FilePath { bytes: vec![b'a', b'.', 0xFF] }), None);
    // The Kelvin sign is lowered to a plain `k`, which makes no known extension.
    assert_eq!(kind("a.p\u{212A}g"), None);
}

#[test]
fn placeholder_symbols_are_cell_sized() {
    // Symbols must stay within the Cell symbol capacity (28 bytes) and
    // form a single width-1 grapheme.
    let mut s = String::new();
    for &(r, c) in &[(0u16, 0u16), (296, 296)] {
        let chars = placeholder_symbol(r, c).unwrap();
        s.clear();
        s.extend(chars);
        assert!(s.len() <= 28, "symbol too long: {} bytes", s.len());
    }
    assert!(placeholder_symbol(297, 0).is_none());
}

#[test]
fn placeholder_symbols_name_row_and_column() {
    assert_eq!(placeholder_symbol(0, 1), Some([PLACEHOLDER, '\u{0305}', '\u{030D}']));
    assert_eq!(placeholder_symbol(296, 0), Some([PLACEHOLDER, '\u{1D244}', '\u{0305}']));
    assert!(placeholder_symbol(0, 297).is_none());
    assert_eq!(PLACEHOLDER, '\u{10EEEE}');
    assert!(ROW_COLUMN_DIACRITICS.windows(2).all(|pair| pair[0] < pair[1]));
}
