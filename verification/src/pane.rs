//! What is drawn in the preview pane, and where.
//!
//! Text is laid out by the editor, which alone knows how lines wrap: what it
//! measures is handed in here, and decided on.
use vstd::prelude::*;
use vstd::string::*;
use vstd::utf8::*;
use crate::draw;
use crate::draw::{CellWrite, Sizes};
use crate::geometry;
use crate::geometry::Rect;
use crate::graphics::{GraphicsMode, GraphicsState};
use crate::media::{MediaKind, MediaState};
use crate::preview;
use crate::preview::Preview;
use crate::text;

verus! {

/// What a piece of text is shown as.
#[derive(Debug, Clone, Copy, PartialEq, Eq, Structural)]
pub enum TextRole {
    Plain,
    Directory,
    Caption,
    InsertMode,
    NormalMode,
}

/// A piece of text on one row, cut off after `max_width` columns.
pub struct Label {
    pub x: u16,
    pub y: u16,
    pub content: String,
    pub max_width: u16,
    pub role: TextRole,
}

/// The model of a [`Label`].
pub struct LabelView {
    pub x: int,
    pub y: int,
    pub content: Seq<char>,
    pub max_width: int,
    pub role: TextRole,
}

impl View for Label {
    type V = LabelView;

    open spec fn view(&self) -> LabelView {
        LabelView {
            x: self.x as int,
            y: self.y as int,
            content: self.content@,
            max_width: self.max_width as int,
            role: self.role,
        }
    }
}

/// In which of its forms a preview is drawn.
#[derive(Debug, Clone, Copy, PartialEq, Eq, Structural)]
pub enum Shown {
    /// As an image; see [`draw_media`].
    Media,
    /// As the text of a document.
    Text,
    /// As the listing of a directory; see [`listing_labels`].
    Listing,
    /// As a line that stands in for the preview; see [`alternate_label`].
    Alternate,
}

/// Whether a range of lines lies in a document.
pub open spec fn range_fits(range: Option<(usize, usize)>, line_count: usize) -> bool {
    match range {
        Some((start, end)) => start <= end && end <= line_count,
        None => true,
    }
}

/// In which of its forms a preview is drawn. A document is shown as text only
/// if the range of lines asked for lies in it.
pub fn what_is_shown(preview: &Preview, range: Option<(usize, usize)>) -> (shown: Shown)
    ensures
        shown == (if preview.media_shown() is Some {
            Shown::Media
        } else {
            match preview.document_shown() {
                Some(doc) => if range_fits(range, doc.line_count) {
                    Shown::Text
                } else {
                    Shown::Alternate
                },
                None => if *preview matches Preview::Cached(
                    preview::CachedPreview::Directory(_),
                ) {
                    Shown::Listing
                } else {
                    Shown::Alternate
                },
            }
        }),
{
    if preview.media().is_some() {
        return Shown::Media;
    }
    if let Some(doc) = preview.document() {
        let fits: bool = match range {
            Some((start, end)) => start <= end && end <= doc.line_count,
            None => true,
        };
        return if fits { Shown::Text } else { Shown::Alternate };
    }
    if preview.dir_content().is_some() {
        Shown::Listing
    } else {
        Shown::Alternate
    }
}

/// The caption below an image: its size in pixels, or for a PDF its page, with
/// a mark while the image is still that of another page.
pub open spec fn caption_of(media: MediaState) -> Seq<char> {
    match media.kind {
        MediaKind::Pdf => {
            let page = "page "@ + text::decimal((media.page + 1) as nat);
            let of = match media.page_count {
                Some(count) => page + "/"@ + text::decimal(count as nat),
                None => page,
            };
            if media.rastering() {
                of + " \u{2026}"@
            } else {
                of
            }
        },
        MediaKind::Image => text::decimal(media.raster.width as nat) + "\u{00d7}"@ + text::decimal(
            media.raster.height as nat,
        ),
    }
}

/// How far down an image is panned. Only images pan; a PDF turns pages instead
/// and is always drawn whole.
pub open spec fn pan_of(kind: MediaKind, scroll: isize) -> int {
    if kind == MediaKind::Image {
        if scroll < 0 {
            0
        } else {
            geometry::least(scroll as int, u16::MAX as int)
        }
    } else {
        0
    }
}

/// An image or PDF page about to be drawn.
pub struct MediaPane {
    pub caption: String,
    /// Where it goes: the last line is left for the caption.
    pub area: Rect,
    pub pan: u16,
    /// Whether it may be drawn larger than it is.
    pub upscale: bool,
}

/// How an image or PDF page is to be drawn.
pub fn media_pane(media: &MediaState, inner: Rect, scroll: isize) -> (pane: MediaPane)
    requires
        media.kind == MediaKind::Pdf ==> media.page < usize::MAX,
    ensures
        pane.caption@ == caption_of(*media),
        pane.area == (Rect { height: geometry::monus(inner.height as int, 1) as u16, ..inner }),
        pane.pan == pan_of(media.kind, scroll),
        pane.upscale == (media.kind == MediaKind::Pdf),
{
    let mut caption: String = String::new();
    match media.kind {
        MediaKind::Pdf => {
            caption.append("page ");
            text::push_decimal(&mut caption, (media.page + 1) as u64);
            if let Some(count) = media.page_count {
                caption.append("/");
                text::push_decimal(&mut caption, count as u64);
            }
            if media.is_rastering() {
                caption.append(" \u{2026}");
            }
        },
        MediaKind::Image => {
            text::push_decimal(&mut caption, media.raster.width as u64);
            caption.append("\u{00d7}");
            text::push_decimal(&mut caption, media.raster.height as u64);
        },
    }
    assert(caption@ =~= caption_of(*media));
    let pan: u16 = match media.kind {
        MediaKind::Image => if scroll < 0 {
            0
        } else if scroll <= 65535 {
            scroll as u16
        } else {
            u16::MAX
        },
        MediaKind::Pdf => 0,
    };
    let upscale: bool = match media.kind {
        MediaKind::Pdf => true,
        MediaKind::Image => false,
    };
    MediaPane { caption, area: inner.clip_bottom(1), pan, upscale }
}

/// The caption of a drawn image: what is left of it to pan through is told
/// behind the caption.
pub open spec fn drawn_caption(caption: Seq<char>, pan: int, placement: draw::Placement) -> Seq<char> {
    if placement.max_pan > 0 {
        caption + " \u{2014} row "@ + text::decimal(
            (geometry::least(pan, placement.max_pan as int) + 1) as nat,
        ) + "/"@ + text::decimal((placement.max_pan + placement.area.height) as nat)
    } else {
        caption
    }
}

/// A caption, centred below a placement.
pub open spec fn caption_label(caption: Seq<char>, inner: Rect, placement: draw::Placement) -> LabelView {
    LabelView {
        x: inner.x + geometry::monus(
            inner.width as int,
            geometry::least(text::display_width(caption) as int, u16::MAX as int),
        ) / 2,
        y: placement.area.y + placement.area.height,
        content: caption,
        max_width: inner.width as int,
        role: TextRole::Caption,
    }
}

/// A line that stands in for the preview, in the middle of the pane. It is
/// centred by the length of its encoding, as far as that fits 16 bits.
pub open spec fn alternate_view(alternate: Seq<char>, inner: Rect) -> LabelView {
    LabelView {
        x: inner.x + geometry::monus(
            inner.width as int,
            (encode_utf8(alternate).len() % 65536) as int,
        ) / 2,
        y: inner.y + inner.height / 2,
        content: alternate,
        max_width: inner.width as int,
        role: TextRole::Plain,
    }
}

/// The line that stands in for a preview.
pub fn alternate_label(alternate: &str, inner: Rect) -> (label: Label)
    requires
        inner.addressable(),
    ensures
        label@ == alternate_view(alternate@, inner),
{
    let len: u16 = (alternate.as_bytes().len() % 65536) as u16;
    let mut content: String = String::new();
    content.append(alternate);
    assert(content@ =~= alternate@);
    Label {
        x: inner.x + inner.width.saturating_sub(len) / 2,
        y: inner.y + inner.height / 2,
        content,
        max_width: inner.width,
        role: TextRole::Plain,
    }
}

/// What drawing an image leaves behind.
pub struct MediaDrawn {
    /// The scroll offset to keep, where the image was drawn: clamped against
    /// the image, so that panning cannot run off its bottom and accumulate.
    pub scroll: Option<isize>,
    pub label: Option<Label>,
}

/// Draws an image or PDF page with its caption. `fits` are the sizes in cells
/// that the raster takes in the area of its [`media_pane`]. Without graphics
/// support a line says so.
pub fn draw_media(
    surface: &mut Vec<CellWrite>,
    graphics: &mut GraphicsState,
    media: &MediaState,
    inner: Rect,
    scroll: isize,
    fits: Sizes,
) -> (drawn: MediaDrawn)
    requires
        media.kind == MediaKind::Pdf ==> media.page < usize::MAX,
        inner.addressable(),
        inner.width > 0 ==> fits.whole.0 <= inner.width && fits.wide.0 <= inner.width,
    ensures
        ({
            let area = Rect { height: geometry::monus(inner.height as int, 1) as u16, ..inner };
            let pan = pan_of(media.kind, scroll);
            let fit = draw::fit_for(area, fits, pan as u16);
            let placement = draw::placed(area, fit.0, fit.1);
            &&& draw::drawing(
                *old(graphics),
                *final(graphics),
                old(surface)@,
                final(surface)@,
                area,
                media.raster,
                fit,
                pan as u16,
            )
            &&& if area.width > 0 && area.height > 0 && old(graphics).mode == GraphicsMode::Kitty {
                &&& drawn.scroll == Some(
                    geometry::least(pan, placement.max_pan as int) as isize,
                )
                &&& drawn.label matches Some(label) && label@ == caption_label(
                    drawn_caption(caption_of(*media), pan, placement),
                    inner,
                    placement,
                )
            } else {
                &&& drawn.scroll is None
                &&& if old(graphics).mode == GraphicsMode::Off {
                    drawn.label matches Some(label) && label@ == alternate_view(
                        "<No image support in this terminal>"@,
                        inner,
                    )
                } else {
                    drawn.label is None
                }
            }
        }),
{
    let pane: MediaPane = media_pane(media, inner, scroll);
    let mode: GraphicsMode = graphics.mode;
    match draw::draw_raster_panned(surface, graphics, pane.area, &media.raster, fits, pane.pan) {
        Some(placement) => {
            let pan: u16 = if pane.pan <= placement.max_pan { pane.pan } else { placement.max_pan };
            let mut caption: String = pane.caption;
            if placement.max_pan > 0 {
                caption.append(" \u{2014} row ");
                text::push_decimal(&mut caption, pan as u64 + 1);
                caption.append("/");
                text::push_decimal(
                    &mut caption,
                    placement.max_pan as u64 + placement.area.height as u64,
                );
            }
            assert(caption@ =~= drawn_caption(caption_of(*media), pane.pan as int, placement));
            let x: u16 = inner.x + inner.width.saturating_sub(draw::text_width(caption.as_str()))
                / 2;
            let y: u16 = placement.area.y + placement.area.height;
            MediaDrawn {
                scroll: Some(pan as isize),
                label: Some(
                    Label { x, y, content: caption, max_width: inner.width, role: TextRole::Caption },
                ),
            }
        },
        None => MediaDrawn {
            scroll: None,
            label: match mode {
                GraphicsMode::Off => Some(
                    alternate_label("<No image support in this terminal>", inner),
                ),
                GraphicsMode::Kitty => None,
            },
        },
    }
}

/// The row of a listing.
pub open spec fn listing_row(entry: (Seq<char>, bool), inner: Rect, i: int) -> LabelView {
    LabelView {
        x: inner.x as int,
        y: inner.y + i,
        content: entry.0,
        max_width: inner.width as int,
        role: if entry.1 {
            TextRole::Directory
        } else {
            TextRole::Plain
        },
    }
}

/// The rows of a directory's listing, as many as there is room for.
pub fn listing_labels(listing: &Vec<(String, bool)>, inner: Rect) -> (labels: Vec<Label>)
    requires
        inner.addressable(),
    ensures
        labels@.len() == geometry::least(listing@.len() as int, inner.height as int),
        forall|i: int|
            0 <= i < labels@.len() ==> (#[trigger] labels@[i])@ == listing_row(
                preview::listing_view(listing@)[i],
                inner,
                i,
            ),
{
    let mut labels: Vec<Label> = Vec::new();
    let mut i: u16 = 0;
    while i < inner.height && (i as usize) < listing.len()
        invariant
            inner.addressable(),
            labels@.len() == i <= geometry::least(listing@.len() as int, inner.height as int),
            forall|j: int|
                0 <= j < i ==> (#[trigger] labels@[j])@ == listing_row(
                    preview::listing_view(listing@)[j],
                    inner,
                    j,
                ),
        decreases inner.height - i,
    {
        let entry: &(String, bool) = &listing[i as usize];
        assert(preview::listing_view(listing@)[i as int] == (entry.0@, entry.1));
        let content: String = entry.0.clone();
        labels.push(
            Label {
                x: inner.x,
                y: inner.y + i,
                content,
                max_width: inner.width,
                role: if entry.1 { TextRole::Directory } else { TextRole::Plain },
            },
        );
        i += 1;
    }
    labels
}

/// How the natural top of a document preview is found.
#[derive(Debug, Clone, Copy, PartialEq, Eq, Structural)]
pub enum Anchoring {
    /// It is the start of the document.
    Top,
    /// It is the start of a line.
    Line { start: usize },
    /// It is `up` visual rows above the start of the line `middle`, but not
    /// below the start of the line `start`.
    Centred { start: usize, middle: usize, up: usize },
}

/// How the natural top of a document preview is found: a range of lines that
/// fits the pane is centred, any other starts at its first line.
pub fn anchoring(range: Option<(usize, usize)>, height: u16) -> (plan: Anchoring)
    requires
        range matches Some((start, end)) ==> start <= end,
    ensures
        plan == (match range {
            None => Anchoring::Top,
            Some((start, end)) => if end - start < height {
                Anchoring::Centred {
                    start,
                    middle: (start + (end - start) / 2) as usize,
                    up: (height / 2) as usize,
                }
            } else {
                Anchoring::Line { start }
            },
        }),
{
    match range {
        None => Anchoring::Top,
        Some((start, end)) => {
            let lines: usize = end - start;
            if lines < height as usize {
                Anchoring::Centred { start, middle: start + lines / 2, up: (height / 2) as usize }
            } else {
                Anchoring::Line { start }
            }
        },
    }
}

/// A place in a document's text: a character, and visual rows from it.
#[derive(Debug, Clone, Copy, PartialEq, Eq, Structural)]
pub struct ViewPosition {
    pub anchor: usize,
    pub vertical_offset: usize,
}

/// The natural top of a document preview. `start` is the first character of
/// the range's first line, and `centred` the place that centring leads to.
pub fn natural_top(plan: Anchoring, start: usize, centred: ViewPosition) -> (top: ViewPosition)
    ensures
        top == (match plan {
            Anchoring::Top => ViewPosition { anchor: 0, vertical_offset: 0 },
            Anchoring::Line { .. } => ViewPosition { anchor: start, vertical_offset: 0 },
            Anchoring::Centred { .. } => if start < centred.anchor {
                ViewPosition { anchor: start, vertical_offset: 0 }
            } else {
                centred
            },
        }),
{
    match plan {
        Anchoring::Top => ViewPosition { anchor: 0, vertical_offset: 0 },
        Anchoring::Line { .. } => ViewPosition { anchor: start, vertical_offset: 0 },
        Anchoring::Centred { .. } => if start < centred.anchor {
            ViewPosition { anchor: start, vertical_offset: 0 }
        } else {
            centred
        },
    }
}

/// Between which two characters visual rows have to be counted, if anywhere,
/// to know how far a preview has really scrolled. `natural` is the natural
/// top, `moved` the place that `scroll` rows lead to from it, and `bottom` the
/// anchor that keeps the document's last row on the last row of the pane.
pub open spec fn to_measure(natural: usize, scroll: isize, moved: usize, bottom: usize) -> Option<
    (usize, usize),
> {
    if scroll == 0 {
        None
    } else if moved > bottom {
        Some((natural, bottom))
    } else if moved < bottom && scroll < 0 && moved <= natural {
        Some((moved, natural))
    } else {
        None
    }
}

/// Between which two characters visual rows have to be counted.
pub fn span_to_measure(natural: usize, scroll: isize, moved: usize, bottom: usize) -> (span: Option<
    (usize, usize),
>)
    ensures
        span == to_measure(natural, scroll, moved, bottom),
{
    if scroll == 0 {
        None
    } else if moved > bottom {
        Some((natural, bottom))
    } else if moved < bottom && scroll < 0 && moved <= natural {
        Some((moved, natural))
    } else {
        None
    }
}

/// Where a scrolled document preview starts.
#[derive(Debug, Clone, Copy, PartialEq, Eq, Structural)]
pub struct Scrolled {
    pub top: ViewPosition,
    /// The scroll offset to keep.
    pub scroll: isize,
    /// Whether the last row of the document is on the last row of the pane.
    pub at_bottom: bool,
}

/// Where a scrolled document preview starts, and how far it has really
/// scrolled. `rows` are the visual rows between the characters of
/// [`to_measure`], where they could be counted.
pub open spec fn settled(
    natural: ViewPosition,
    scroll: isize,
    moved: ViewPosition,
    bottom: usize,
    rows: Option<usize>,
) -> Scrolled {
    if scroll == 0 {
        Scrolled { top: natural, scroll, at_bottom: false }
    } else if moved.anchor >= bottom {
        Scrolled {
            top: ViewPosition { anchor: bottom, vertical_offset: 0 },
            scroll: match rows {
                Some(n) => if moved.anchor > bottom && n < scroll {
                    n as isize
                } else {
                    scroll
                },
                None => scroll,
            },
            at_bottom: true,
        }
    } else {
        Scrolled {
            top: moved,
            scroll: match rows {
                Some(n) => if scroll < 0 && moved.anchor <= natural.anchor {
                    (-n) as isize
                } else {
                    scroll
                },
                None => scroll,
            },
            at_bottom: false,
        }
    }
}

/// Where a scrolled document preview starts. Scrolling moves the anchor by
/// whole visual rows, so that wrapped lines scroll one wrapped row at a time.
/// The offset is clamped to the rows that were really scrolled, so that it
/// cannot accumulate past either end and the next scroll back responds at
/// once.
pub fn settle_scroll(
    natural: ViewPosition,
    scroll: isize,
    moved: ViewPosition,
    bottom: usize,
    rows: Option<usize>,
) -> (outcome: Scrolled)
    requires
        rows matches Some(n) ==> n <= isize::MAX,
    ensures
        outcome == settled(natural, scroll, moved, bottom, rows),
{
    if scroll == 0 {
        return Scrolled { top: natural, scroll, at_bottom: false };
    }
    if moved.anchor >= bottom {
        let mut clamped: isize = scroll;
        if moved.anchor > bottom {
            if let Some(n) = rows {
                if (n as isize) < scroll {
                    clamped = n as isize;
                }
            }
        }
        Scrolled {
            top: ViewPosition { anchor: bottom, vertical_offset: 0 },
            scroll: clamped,
            at_bottom: true,
        }
    } else {
        let mut clamped: isize = scroll;
        if scroll < 0 && moved.anchor <= natural.anchor {
            if let Some(n) = rows {
                clamped = -(n as isize);
            }
        }
        Scrolled { top: moved, scroll: clamped, at_bottom: false }
    }
}

/// The thumb of a scroll bar: its first row, and how many rows it has.
#[derive(Debug, Clone, Copy, PartialEq, Eq, Structural)]
pub struct Thumb {
    pub start: u16,
    pub len: u16,
}

/// How many rows the thumb has: the part of the window that the window is of
/// the document, rounded up.
pub open spec fn thumb_len(window: int, lines: int) -> int {
    geometry::least((window * window + lines - 1) / lines, window)
}

/// The first row of the thumb: at the end once the preview is scrolled to the
/// bottom, and otherwise by the line on top, within the track.
pub open spec fn thumb_start(window: int, lines: int, top_line: int, at_bottom: bool) -> int {
    let track = window - thumb_len(window, lines);
    if at_bottom {
        track
    } else {
        geometry::least(track * top_line / (lines - window), track)
    }
}

/// The thumb of the scroll bar of a preview that is `window` rows high, of a
/// document that is more lines long. It is placed by lines, which is
/// approximate when lines wrap.
pub fn scroll_thumb(window: u16, lines: usize, top_line: usize, at_bottom: bool) -> (thumb: Option<
    Thumb,
>)
    ensures
        thumb is Some <==> lines > window,
        thumb matches Some(t) ==> t.len == thumb_len(window as int, lines as int) && t.start
            == thumb_start(window as int, lines as int, top_line as int, at_bottom),
        thumb matches Some(t) ==> t.start + t.len <= window,
{
    if lines <= window as usize {
        return None;
    }
    let win: u128 = window as u128;
    let total: u128 = lines as u128;
    proof {
        lemma_thumb_fits(window as int, lines as int, top_line as int);
    }
    let rounded: u128 = (win * win + total - 1) / total;
    let len: u128 = if rounded <= win { rounded } else { win };
    let track: u128 = win - len;
    let start: u128 = if at_bottom {
        track
    } else {
        let at: u128 = track * (top_line as u128) / (total - win);
        if at <= track {
            at
        } else {
            track
        }
    };
    Some(Thumb { start: start as u16, len: len as u16 })
}

proof fn lemma_thumb_fits(window: int, lines: int, top_line: int)
    requires
        0 <= window <= u16::MAX,
        window < lines <= usize::MAX,
        0 <= top_line <= usize::MAX,
    ensures
        0 <= window * window <= u16::MAX * u16::MAX,
        0 <= thumb_len(window, lines) <= window,
        0 <= (window - thumb_len(window, lines)) * top_line <= u16::MAX * usize::MAX,
        0 <= (window - thumb_len(window, lines)) * top_line / (lines - window),
{
    assert(0 <= window * window <= u16::MAX * u16::MAX) by (nonlinear_arith)
        requires
            0 <= window <= u16::MAX,
    ;
    let n = window * window + lines - 1;
    assert(0 <= n / lines) by (nonlinear_arith)
        requires
            0 <= n,
            0 < lines,
    ;
    let track = window - thumb_len(window, lines);
    assert(0 <= track * top_line <= u16::MAX * usize::MAX) by (nonlinear_arith)
        requires
            0 <= track <= u16::MAX,
            0 <= top_line <= usize::MAX,
    ;
    let below = lines - window;
    let m = track * top_line;
    assert(0 <= m / below) by (nonlinear_arith)
        requires
            0 <= m,
            0 < below,
    ;
}

/// A cell of the scroll bar, and whether it belongs to the thumb.
#[derive(Debug, Clone, Copy, PartialEq, Eq, Structural)]
pub struct BarCell {
    pub x: u16,
    pub y: u16,
    pub thumb: bool,
}

/// The cells of the scroll bar on the right edge of the pane, top to bottom.
pub fn scroll_bar(inner: Rect, thumb: Thumb) -> (cells: Vec<BarCell>)
    requires
        inner.addressable(),
        inner.x + inner.width > 0,
        thumb.start + thumb.len <= u16::MAX,
    ensures
        cells@.len() == inner.height,
        forall|i: int|
            0 <= i < cells@.len() ==> #[trigger] cells@[i] == (BarCell {
                x: (inner.x + inner.width - 1) as u16,
                y: (inner.y + i) as u16,
                thumb: thumb.start <= i < thumb.start + thumb.len,
            }),
{
    let mut cells: Vec<BarCell> = Vec::new();
    let mut i: u16 = 0;
    while i < inner.height
        invariant
            inner.addressable(),
            inner.x + inner.width > 0,
            thumb.start + thumb.len <= u16::MAX,
            cells@.len() == i <= inner.height,
            forall|j: int|
                0 <= j < i ==> #[trigger] cells@[j] == (BarCell {
                    x: (inner.x + inner.width - 1) as u16,
                    y: (inner.y + j) as u16,
                    thumb: thumb.start <= j < thumb.start + thumb.len,
                }),
        decreases inner.height - i,
    {
        let lit: bool = thumb.start <= i && i < thumb.start + thumb.len;
        cells.push(BarCell { x: inner.x + inner.width - 1, y: inner.y + i, thumb: lit });
        i += 1;
    }
    cells
}

/// The row to pick out, if the line shown there lies in the range that the
/// preview is about.
pub fn highlighted_row(
    range: Option<(usize, usize)>,
    line: usize,
    viewport: Rect,
    row: u16,
) -> (area: Option<Rect>)
    ensures
        area == (match range {
            Some((start, end)) => if start <= line <= end {
                Some(Rect { x: viewport.x, y: row, width: viewport.width, height: 1 })
            } else {
                None
            },
            None => None,
        }),
{
    match range {
        Some((start, end)) => if start <= line && line <= end {
            Some(Rect { x: viewport.x, y: row, width: viewport.width, height: 1 })
        } else {
            None
        },
        None => None,
    }
}

/// A preview that has not been scrolled keeps its natural top, and with it
/// the centring of a range.
pub proof fn law_no_scroll_keeps_the_natural_top(
    natural: ViewPosition,
    moved: ViewPosition,
    bottom: usize,
    rows: Option<usize>,
)
    ensures
        settled(natural, 0, moved, bottom, rows) == (Scrolled {
            top: natural,
            scroll: 0,
            at_bottom: false,
        }),
{
}

/// A scrolled preview never starts past the anchor that keeps the last row of
/// the document on the last row of the pane.
pub proof fn law_scroll_stops_at_the_bottom(
    natural: ViewPosition,
    scroll: isize,
    moved: ViewPosition,
    bottom: usize,
    rows: Option<usize>,
)
    requires
        scroll != 0,
    ensures
        settled(natural, scroll, moved, bottom, rows).top.anchor <= bottom,
        settled(natural, scroll, moved, bottom, rows).at_bottom <==> moved.anchor >= bottom,
{
}

/// Overscroll cannot accumulate: past the bottom the offset kept is no more
/// than the rows down to it, past the top it is just the rows up to it, and
/// neither is further than was asked for.
pub proof fn law_overscroll_cannot_accumulate(
    natural: ViewPosition,
    scroll: isize,
    moved: ViewPosition,
    bottom: usize,
    rows: usize,
)
    requires
        to_measure(natural.anchor, scroll, moved.anchor, bottom) is Some,
        rows <= isize::MAX,
        scroll < 0 ==> rows <= -scroll,
    ensures
        ({
            let kept = settled(natural, scroll, moved, bottom, Some(rows)).scroll;
            &&& moved.anchor > bottom ==> kept <= rows && kept <= scroll
            &&& moved.anchor < bottom ==> kept == -rows && scroll <= kept
        }),
{
}

/// The thumb lies within the track, is never empty in a pane that has rows,
/// and reaches the last row exactly when it should.
pub proof fn law_thumb_stays_in_the_track(window: int, lines: int, top_line: int, at_bottom: bool)
    requires
        0 < window <= u16::MAX,
        window < lines <= usize::MAX,
        0 <= top_line <= usize::MAX,
    ensures
        1 <= thumb_len(window, lines) <= window,
        0 <= thumb_start(window, lines, top_line, at_bottom),
        thumb_start(window, lines, top_line, at_bottom) + thumb_len(window, lines) <= window,
        at_bottom ==> thumb_start(window, lines, top_line, at_bottom) + thumb_len(window, lines)
            == window,
        !at_bottom && top_line == 0 ==> thumb_start(window, lines, top_line, at_bottom) == 0,
{
    lemma_thumb_fits(window, lines, top_line);
    let n = window * window + lines - 1;
    assert(n / lines >= 1) by (nonlinear_arith)
        requires
            n == window * window + lines - 1,
            0 < window,
            0 < lines,
    ;
    let track = window - thumb_len(window, lines);
    let below = lines - window;
    assert(0int / below == 0) by (nonlinear_arith)
        requires
            0 < below,
    ;
}

/// The thumb never moves up when the preview moves down.
pub proof fn law_thumb_follows_the_preview(window: int, lines: int, above: int, below: int)
    requires
        0 < window <= u16::MAX,
        window < lines <= usize::MAX,
        0 <= above <= below <= usize::MAX,
    ensures
        thumb_start(window, lines, above, false) <= thumb_start(window, lines, below, false),
        thumb_start(window, lines, above, false) <= thumb_start(window, lines, above, true),
{
    lemma_thumb_fits(window, lines, above);
    let track = window - thumb_len(window, lines);
    let hidden = lines - window;
    assert(track * above <= track * below) by (nonlinear_arith)
        requires
            0 <= track,
            above <= below,
    ;
    let a = track * above;
    let b = track * below;
    assert(a / hidden <= b / hidden) by (nonlinear_arith)
        requires
            a <= b,
            0 < hidden,
    ;
}

/// A range of lines lies in a document if it does not end before it starts, nor
/// past the last line; without a range the whole document is asked for.
pub proof fn law_ranges_lie_in_their_document(start: usize, end: usize, line_count: usize)
    ensures
        range_fits(None, line_count),
        range_fits(Some((start, end)), line_count) <==> start <= end <= line_count,
{
}

/// The caption of a PDF tells its page, counted from one, of how many there are
/// if that is known, and whether the picture is still of another page; that of
/// an image tells its size in pixels.
pub proof fn law_captions_tell_the_page_or_the_size(media: MediaState)
    ensures
        media.kind == MediaKind::Image ==> caption_of(media) == text::decimal(
            media.raster.width as nat,
        ) + "\u{00d7}"@ + text::decimal(media.raster.height as nat),
        media.kind == MediaKind::Pdf ==> {
            let page = "page "@ + text::decimal((media.page + 1) as nat);
            let of = match media.page_count {
                Some(count) => page + "/"@ + text::decimal(count as nat),
                None => page,
            };
            caption_of(media) == (if media.rastered == media.page {
                of
            } else {
                of + " \u{2026}"@
            })
        },
{
}

/// Only images are panned, as far as they are scrolled down, and never up past
/// their top.
pub proof fn law_images_are_panned_as_scrolled(scroll: isize)
    ensures
        pan_of(MediaKind::Pdf, scroll) == 0,
        scroll <= 0 ==> pan_of(MediaKind::Image, scroll) == 0,
        0 <= scroll <= 65535 ==> pan_of(MediaKind::Image, scroll) == scroll,
        scroll > 65535 ==> pan_of(MediaKind::Image, scroll) == 65535,
{
}

/// The caption of a picture that is all on screen is left as it is; one of which
/// rows are hidden tells the topmost row shown, counted from one, of all rows.
pub proof fn law_captions_tell_what_is_hidden(
    caption: Seq<char>,
    pan: int,
    placement: draw::Placement,
)
    requires
        0 <= pan,
    ensures
        placement.max_pan == 0 ==> drawn_caption(caption, pan, placement) == caption,
        0 < placement.max_pan && pan <= placement.max_pan ==> drawn_caption(caption, pan, placement)
            == caption + " \u{2014} row "@ + text::decimal((pan + 1) as nat) + "/"@ + text::decimal(
            (placement.max_pan + placement.area.height) as nat,
        ),
        0 < placement.max_pan < pan ==> drawn_caption(caption, pan, placement) == drawn_caption(
            caption,
            placement.max_pan as int,
            placement,
        ),
{
}

/// A caption that fits is centred below the picture: on the line right below it,
/// and with as much room on its left as on its right, to the cell.
pub proof fn law_captions_are_centred_below(
    caption: Seq<char>,
    inner: Rect,
    placement: draw::Placement,
)
    requires
        text::display_width(caption) <= inner.width,
    ensures
        ({
            let label = caption_label(caption, inner, placement);
            let width = text::display_width(caption) as int;
            let left = label.x - inner.x;
            let right = inner.x + inner.width - (label.x + width);
            &&& 0 <= left && 0 <= right - left <= 1
            &&& label.y == placement.area.y + placement.area.height
            &&& label.content == caption
            &&& label.max_width == inner.width
            &&& label.role == TextRole::Caption
        }),
{
}

/// A caption that is too wide starts at the left edge.
pub proof fn law_wide_captions_start_at_the_edge(
    caption: Seq<char>,
    inner: Rect,
    placement: draw::Placement,
)
    requires
        text::display_width(caption) > inner.width,
    ensures
        caption_label(caption, inner, placement).x == inner.x,
{
}

/// A line that stands in for a preview is in the middle of the pane: halfway
/// down, and with as much room on its left as on its right, to the cell, as far
/// as its bytes are columns.
pub proof fn law_stand_ins_are_in_the_middle(alternate: Seq<char>, inner: Rect)
    requires
        encode_utf8(alternate).len() <= inner.width,
    ensures
        ({
            let label = alternate_view(alternate, inner);
            let width = encode_utf8(alternate).len() as int;
            let left = label.x - inner.x;
            let right = inner.x + inner.width - (label.x + width);
            &&& 0 <= left && 0 <= right - left <= 1
            &&& 0 <= inner.height - 2 * (label.y - inner.y) <= 1
            &&& label.content == alternate
            &&& label.max_width == inner.width
            &&& label.role == TextRole::Plain
        }),
{
}

/// The rows of a listing go down the left edge of the pane, one below the other,
/// and directories stand out.
pub proof fn law_listings_go_down_the_edge(entry: (Seq<char>, bool), inner: Rect, i: int)
    ensures
        listing_row(entry, inner, i).x == inner.x,
        listing_row(entry, inner, 0).y == inner.y,
        listing_row(entry, inner, i + 1).y == listing_row(entry, inner, i).y + 1,
        listing_row(entry, inner, i).content == entry.0,
        listing_row(entry, inner, i).max_width == inner.width,
        entry.1 ==> listing_row(entry, inner, i).role == TextRole::Directory,
        !entry.1 ==> listing_row(entry, inner, i).role == TextRole::Plain,
{
}

/// Rows are counted only where the preview has been scrolled past an end: from
/// the natural top down to the bottom, or from where it is up to the natural
/// top.
pub proof fn law_rows_are_counted_past_the_ends(
    natural: usize,
    scroll: isize,
    moved: usize,
    bottom: usize,
)
    ensures
        scroll == 0 ==> to_measure(natural, scroll, moved, bottom) is None,
        scroll != 0 && moved > bottom ==> to_measure(natural, scroll, moved, bottom) == Some(
            (natural, bottom),
        ),
        scroll < 0 && moved < bottom && moved <= natural ==> to_measure(
            natural,
            scroll,
            moved,
            bottom,
        ) == Some((moved, natural)),
        scroll > 0 && moved <= bottom ==> to_measure(natural, scroll, moved, bottom) is None,
        moved == bottom ==> to_measure(natural, scroll, moved, bottom) is None,
        natural < moved < bottom ==> to_measure(natural, scroll, moved, bottom) is None,
{
}

/// A preview that is scrolled within the document starts where the scroll leads,
/// and keeps its offset; one that is scrolled to the bottom or past it starts
/// there.
pub proof fn law_scrolls_lead_where_they_should(
    natural: ViewPosition,
    scroll: isize,
    moved: ViewPosition,
    bottom: usize,
    rows: Option<usize>,
)
    requires
        scroll != 0,
    ensures
        moved.anchor < bottom ==> settled(natural, scroll, moved, bottom, rows).top == moved,
        moved.anchor >= bottom ==> settled(natural, scroll, moved, bottom, rows).top == (
        ViewPosition { anchor: bottom, vertical_offset: 0 }),
        scroll > 0 && moved.anchor <= bottom ==> settled(natural, scroll, moved, bottom, rows).scroll
            == scroll,
        rows is None ==> settled(natural, scroll, moved, bottom, rows).scroll == scroll,
        scroll < 0 && natural.anchor < moved.anchor < bottom ==> settled(
            natural,
            scroll,
            moved,
            bottom,
            rows,
        ).scroll == scroll,
{
}

/// Past the bottom the offset that is kept is the rows down to the bottom, where
/// they are fewer than were asked for.
pub proof fn law_the_rows_to_the_bottom_are_kept(
    natural: ViewPosition,
    scroll: isize,
    moved: ViewPosition,
    bottom: usize,
    rows: usize,
)
    requires
        scroll != 0,
        rows <= isize::MAX,
        moved.anchor > bottom,
    ensures
        rows < scroll ==> settled(natural, scroll, moved, bottom, Some(rows)).scroll == rows,
        rows >= scroll ==> settled(natural, scroll, moved, bottom, Some(rows)).scroll == scroll,
{
}

/// The thumb is to the window as the window is to the document, to the row: it
/// is at least that part of the window, and less than a row more. It starts
/// where the line on top is to the lines that can be on top, to the row.
pub proof fn law_thumbs_are_in_proportion(window: int, lines: int, top_line: int)
    requires
        0 < window < lines,
        0 <= top_line <= lines - window,
    ensures
        thumb_len(window, lines) * lines >= window * window,
        (thumb_len(window, lines) - 1) * lines < window * window,
        ({
            let track = window - thumb_len(window, lines);
            let start = thumb_start(window, lines, top_line, false);
            &&& start * (lines - window) <= track * top_line
            &&& track * top_line < (start + 1) * (lines - window)
        }),
{
    let square = window * window;
    let n = square + lines - 1;
    let q = n / lines;
    assert(q * lines >= square && (q - 1) * lines < square) by (nonlinear_arith)
        requires
            n == square + lines - 1,
            q == n / lines,
            0 < lines,
    ;
    assert(q <= window) by (nonlinear_arith)
        requires
            (q - 1) * lines < square,
            square == window * window,
            0 < window < lines,
    ;
    assert(thumb_len(window, lines) == q);
    let track = window - q;
    let hidden = lines - window;
    let m = track * top_line;
    let s = m / hidden;
    assert(s * hidden <= m && m < (s + 1) * hidden) by (nonlinear_arith)
        requires
            s == m / hidden,
            0 < hidden,
    ;
    assert(s <= track) by (nonlinear_arith)
        requires
            s * hidden <= m,
            m == track * top_line,
            0 <= top_line <= hidden,
            0 < hidden,
            0 <= track,
    ;
}

/// A line that is too long for the pane starts at its left edge.
pub proof fn law_long_stand_ins_start_at_the_edge(alternate: Seq<char>, inner: Rect)
    requires
        inner.width <= encode_utf8(alternate).len() < 65536,
    ensures
        alternate_view(alternate, inner).x == inner.x,
{
}

/// Once the last lines are in the window the thumb is at the end of its track.
pub proof fn law_thumbs_reach_the_end(window: int, lines: int, top_line: int)
    requires
        0 < window < lines,
        lines - window <= top_line,
        thumb_len(window, lines) <= window,
    ensures
        thumb_start(window, lines, top_line, false) + thumb_len(window, lines) == window,
{
    let track = window - thumb_len(window, lines);
    let hidden = lines - window;
    let m = track * top_line;
    assert(m / hidden >= track) by (nonlinear_arith)
        requires
            m == track * top_line,
            0 < hidden <= top_line,
            0 <= track,
    ;
}

/// A label is seen as it is.
pub proof fn law_labels_are_seen_as_they_are(label: Label)
    ensures
        label@.x == label.x,
        label@.y == label.y,
        label@.content == label.content@,
        label@.max_width == label.max_width,
        label@.role == label.role,
{
}

} // verus!
