//! Drawing a picker: its rows, its panes and its preview.
use nucleo::Nucleo;
use vstd::prelude::*;
use vstd::string::*;
use crate::column;
use crate::column::Column;
use crate::draw;
use crate::draw::{CellWrite, Sizes};
use crate::geometry;
use crate::geometry::Rect;
use crate::graphics::{GraphicsMode, GraphicsState};
use crate::highlight;
use crate::highlight::{CellSpan, StyledText};
use crate::key;
use crate::key::Command;
use crate::layout;
use crate::layout::PickerLayout;
use crate::matcher;
use crate::media::{MediaKind, MediaState};
use crate::pane;
use crate::pane::{Anchoring, Label, MediaDrawn, MediaPane, Scrolled, Shown, ViewPosition};
use crate::picker::paging::{MediaTarget, PreviewSource, RasterJob};
use crate::picker::{Picker, ID, MIN_AREA_WIDTH_FOR_PREVIEW};
use crate::preview;
use crate::preview::{CachedPreview, Editor, FileLocation, Preview};

verus! {

/// A cell of a row in the list.
pub enum RowCell {
    /// The cell of a hidden column.
    Blank,
    /// A cell that is shown as its column formats it.
    AsFormatted,
    /// A cell in which the matched characters are picked out.
    Marked(Vec<StyledText>),
}

/// How many of the first columns are shown.
pub open spec fn shown_before(columns: Seq<Column>, i: int) -> int
    decreases i,
{
    if i <= 0 {
        0
    } else {
        shown_before(columns, i - 1) + (if columns[i - 1].hidden {
            0int
        } else {
            1int
        })
    }
}

/// How many of the first columns are shown and filtered by.
pub open spec fn marked_before(columns: Seq<Column>, i: int) -> int
    decreases i,
{
    if i <= 0 {
        0
    } else {
        marked_before(columns, i - 1) + (if columns[i - 1].filter && !columns[i - 1].hidden {
            1int
        } else {
            0int
        })
    }
}

/// The widths once the first cells of a row have been made room for. Widths
/// belong to the columns that are shown, in order.
pub open spec fn widened(
    columns: Seq<Column>,
    widths: Seq<u16>,
    cells: Seq<Vec<CellSpan>>,
    i: int,
) -> Seq<u16>
    decreases i,
{
    if i <= 0 {
        widths
    } else {
        let before = widened(columns, widths, cells, i - 1);
        let n = shown_before(columns, i - 1);
        let width = highlight::total_width(cells[i - 1]@) % 65536;
        if columns[i - 1].hidden || width <= before[n] {
            before
        } else {
            before.update(n, width as u16)
        }
    }
}

proof fn lemma_marked_before(columns: Seq<Column>, i: int)
    requires
        0 <= i <= columns.len(),
    ensures
        0 <= marked_before(columns, i) <= column::filter_names(columns.take(i)).len(),
        0 <= shown_before(columns, i) <= i,
    decreases i,
{
    if i > 0 {
        lemma_marked_before(columns, i - 1);
        assert(columns.take(i).drop_last() =~= columns.take(i - 1));
    }
}

/// A cell of the header: the column's name, unless it is hidden, and whether
/// the prompt's cursor is in the part of the query for it.
pub struct HeaderCell {
    pub name: Option<String>,
    pub active: bool,
}

impl Picker {
    /// A highlighter that is set up as the picker matches.
    pub fn highlighter(&self) -> (highlighter: nucleo::Matcher)
        ensures
            matcher::setup(highlighter) == Some(self.has_preview),
    {
        let mut highlighter: nucleo::Matcher = matcher::new_highlighter();
        if self.has_preview {
            matcher::prefer_paths(&mut highlighter);
        }
        highlighter
    }

    /// Whether a cell shows what it should for the match at index `row`.
    pub open spec fn shows_cell(
        &self,
        row: u32,
        i: int,
        spans: Seq<CellSpan>,
        plain: u64,
        cell: RowCell,
    ) -> bool {
        if self.columns@[i].hidden {
            cell is Blank
        } else if !self.columns@[i].filter {
            cell is AsFormatted
        } else {
            cell matches RowCell::Marked(list) && list@.map_values(
                |t: StyledText| highlight::run_view(t),
            ) == highlight::runs(
                highlight::styled(
                    highlight::all_clusters(spans),
                    matcher::match_positions(
                        self.matcher,
                        row,
                        marked_before(self.columns@, i) as usize,
                        self.has_preview,
                    ),
                ),
                plain,
            )
        }
    }

    /// The cells of the match at index `row`, with the matched characters
    /// picked out; columns are widened to hold them. `cells` holds, for each
    /// column, the first line of the cell as the column formats it.
    pub fn format_row(
        &mut self,
        row: u32,
        cells: &Vec<Vec<CellSpan>>,
        highlighter: &mut nucleo::Matcher,
        plain: u64,
    ) -> (formatted: Vec<RowCell>)
        requires
            old(self).wf(),
            row < old(self).matches().len(),
            cells@.len() == old(self).columns@.len(),
            matcher::setup(*old(highlighter)) == Some(old(self).has_preview),
        ensures
            final(self).wf(),
            *final(self) == (Picker { widths: final(self).widths, ..*old(self) }),
            final(self).widths@ == widened(
                old(self).columns@,
                old(self).widths@,
                cells@,
                cells@.len() as int,
            ),
            formatted@.len() == cells@.len(),
            forall|i: int|
                0 <= i < formatted@.len() ==> old(self).shows_cell(
                    row,
                    i,
                    cells@[i]@,
                    plain,
                    #[trigger] formatted@[i],
                ),
            matcher::setup(*final(highlighter)) == Some(old(self).has_preview),
    {
        let mut formatted: Vec<RowCell> = Vec::new();
        let mut n: usize = 0;
        let mut k: usize = 0;
        let mut i: usize = 0;
        while i < self.columns.len()
            invariant
                old(self).wf(),
                *self == (Picker { widths: self.widths, ..*old(self) }),
                row < old(self).matches().len(),
                cells@.len() == old(self).columns@.len(),
                matcher::setup(*highlighter) == Some(old(self).has_preview),
                formatted@.len() == i <= self.columns@.len(),
                n == shown_before(self.columns@, i as int),
                k == marked_before(self.columns@, i as int),
                n <= i,
                k <= i,
                self.widths@.len() == self.columns@.len(),
                self.widths@ == widened(old(self).columns@, old(self).widths@, cells@, i as int),
                forall|j: int|
                    0 <= j < i ==> old(self).shows_cell(
                        row,
                        j,
                        cells@[j]@,
                        plain,
                        #[trigger] formatted@[j],
                    ),
            decreases self.columns@.len() - i,
        {
            proof {
                lemma_marked_before(self.columns@, i as int);
                column::lemma_filter_prefix(self.columns@, i as int);
            }
            if self.columns[i].hidden {
                formatted.push(RowCell::Blank);
            } else {
                let width: usize = if self.columns[i].filter {
                    let positions: Vec<u32> = matcher::match_indices(
                        &self.matcher,
                        row,
                        k,
                        highlighter,
                    );
                    let (list, width): (Vec<StyledText>, usize) = highlight::highlight_spans(
                        &cells[i],
                        &positions,
                        plain,
                    );
                    formatted.push(RowCell::Marked(list));
                    k += 1;
                    width
                } else {
                    formatted.push(RowCell::AsFormatted);
                    highlight::width_of_spans(&cells[i])
                };
                let needed: u16 = (width % 65536) as u16;
                if needed > self.widths[n] {
                    self.widths[n] = needed;
                }
                n += 1;
            }
            i += 1;
        }
        formatted
    }

    /// The cells of the header, or `None` for a picker with a single column.
    /// `active` is the column that the prompt's cursor is in the query for.
    pub fn header(&self, active: Option<usize>) -> (cells: Option<Vec<HeaderCell>>)
        ensures
            cells is Some <==> self.columns@.len() > 1,
            cells matches Some(list) ==> list@.len() == self.columns@.len() && forall|i: int|
                0 <= i < list@.len() ==> if self.columns@[i].hidden {
                    (#[trigger] list@[i]).name is None && !list@[i].active
                } else {
                    list@[i].name matches Some(name) && name@ == self.columns@[i].name@
                        && list@[i].active == (active == Some(i as usize))
                },
    {
        if self.columns.len() <= 1 {
            return None;
        }
        let mut list: Vec<HeaderCell> = Vec::new();
        let mut i: usize = 0;
        while i < self.columns.len()
            invariant
                list@.len() == i <= self.columns@.len(),
                forall|j: int|
                    0 <= j < i ==> if self.columns@[j].hidden {
                        (#[trigger] list@[j]).name is None && !list@[j].active
                    } else {
                        list@[j].name matches Some(name) && name@ == self.columns@[j].name@
                            && list@[j].active == (active == Some(j as usize))
                    },
            decreases self.columns@.len() - i,
        {
            if self.columns[i].hidden {
                list.push(HeaderCell { name: None, active: false });
            } else {
                let active_here: bool = match active {
                    Some(a) => a == i,
                    None => false,
                };
                list.push(
                    HeaderCell { name: Some(self.columns[i].name.clone()), active: active_here },
                );
            }
            i += 1;
        }
        Some(list)
    }

    /// The cursor once the matches have been looked at again: if they have
    /// changed, it does not stay past the last one.
    pub open spec fn cursor_after(cursor: u32, changed: bool, matched: int) -> int {
        if changed {
            geometry::least(cursor as int, geometry::monus(matched, 1))
        } else {
            cursor as int
        }
    }

    /// Whether there may be more matches to come: the matcher is not done, or
    /// somebody may still add items.
    pub open spec fn more_to_come(status: matcher::Status, injectors: usize) -> bool {
        status.running || injectors > 0
    }

    /// The picker with another state of its matcher.
    pub open spec fn searched_by(self, matcher: Nucleo<u64>) -> Picker {
        Picker { matcher, ..self }
    }

    /// What the picker's own pane shows once the matches have been looked at
    /// again: the cursor is on one of them, and the parts of the pane and the
    /// keys of the matches on the page fit them.
    pub open spec fn shows(
        self,
        after: Picker,
        status: matcher::Status,
        injectors: usize,
        area: Rect,
        modal: bool,
        layout: PickerLayout,
        keys: Seq<u64>,
    ) -> bool {
        &&& after == (Picker { cursor: after.cursor, ..self })
        &&& after.cursor == Self::cursor_after(
            self.cursor,
            status.changed,
            self.matches().len() as int,
        )
        &&& layout.fits(
            area,
            modal,
            self.mode,
            Self::more_to_come(status, injectors),
            self.matches().len() as u32,
            matcher::item_total(self.matcher),
            after.cursor,
            self.header_rows(),
        )
        &&& keys == (if layout.first <= layout.end {
            self.matches().subrange(layout.first as int, layout.end as int)
        } else {
            Seq::<u64>::empty()
        })
    }

    /// Lays out the picker's own pane with the matches as they are now.
    /// `status` is what the matcher reports of them, and `injectors` how many
    /// handles there are to add items through. The keys of the matches on the
    /// page come with it; there are none where the cursor is on a page past the
    /// last match.
    pub fn render_matches(
        &mut self,
        status: &matcher::Status,
        injectors: usize,
        area: Rect,
        modal: bool,
    ) -> (rendered: (PickerLayout, Vec<u64>))
        requires
            area.addressable(),
            area.framed().y < u16::MAX,
        ensures
            old(self).shows(
                *final(self),
                *status,
                injectors,
                area,
                modal,
                rendered.0,
                rendered.1@,
            ),
    {
        let matched: u32 = matcher::matched_item_count(&self.matcher);
        if status.changed {
            let last: u32 = matched.saturating_sub(1);
            if last < self.cursor {
                self.cursor = last;
            }
        }
        let running: bool = status.running || injectors > 0;
        let total: u32 = matcher::item_count(&self.matcher);
        let layout: PickerLayout = layout::lay_out(
            area,
            modal,
            self.mode,
            running,
            matched,
            total,
            self.cursor,
            self.header_height(),
        );
        let keys: Vec<u64> = if layout.first <= layout.end {
            matcher::matched_items(&self.matcher, layout.first, layout.end)
        } else {
            Vec::new()
        };
        (layout, keys)
    }

    /// Takes over what the matcher has found and lays out the picker's own
    /// pane with it; see [`Picker::render_matches`].
    ///
    /// What the matcher has found by now, whether it goes on, and how many
    /// handles there are to add items through, depends on other threads.
    pub fn render_picker(&mut self, area: Rect, modal: bool) -> (rendered: (PickerLayout, Vec<u64>))
        requires
            old(self).wf(),
            area.addressable(),
            area.framed().y < u16::MAX,
        ensures
            final(self).wf(),
            matcher::same_list(final(self).matcher, old(self).matcher),
            exists|status: matcher::Status, injectors: usize|
                {
                    &&& #[trigger] old(self).searched_by(final(self).matcher).shows(
                        *final(self),
                        status,
                        injectors,
                        area,
                        modal,
                        rendered.0,
                        rendered.1@,
                    )
                    &&& !status.changed ==> final(self).matches() == old(self).matches()
                        && matcher::item_total(final(self).matcher) == matcher::item_total(
                        old(self).matcher,
                    )
                },
    {
        let status: matcher::Status = matcher::tick(&mut self.matcher, 10);
        let injectors: usize = matcher::active_injectors(&self.matcher);
        self.render_matches(&status, injectors, area, modal)
    }

    /// Whether there is a preview beside the list in an area.
    pub open spec fn fits_preview(&self, area: Rect) -> bool {
        self.show_preview && self.has_preview && area.width > MIN_AREA_WIDTH_FOR_PREVIEW
    }

    /// How wide the picker's own pane is in an area.
    pub open spec fn own_width(&self, area: Rect) -> u16 {
        if self.fits_preview(area) {
            area.width / 2
        } else {
            area.width
        }
    }

    /// Splits an area into the picker's own pane and, where there is room for
    /// it, the preview's. Whether there is one is remembered, so that the
    /// preview-scroll keys know whether there is a preview on screen to scroll.
    pub fn render(&mut self, area: Rect) -> (areas: (Rect, Option<Rect>))
        ensures
            *final(self) == (Picker { preview_visible: old(self).fits_preview(area), ..*old(self) }),
            areas.0 == (Rect { width: old(self).own_width(area), ..area }),
            areas.1 == (if old(self).fits_preview(area) {
                Some(layout::left_clipped(area, old(self).own_width(area) as int))
            } else {
                None
            }),
    {
        let preview: bool = self.show_preview && self.has_preview && area.width
            > MIN_AREA_WIDTH_FOR_PREVIEW;
        self.preview_visible = preview;
        let width: u16 = if preview { area.width / 2 } else { area.width };
        let own: Rect = area.with_width(width);
        if preview {
            (own, Some(area.clip_left(width)))
        } else {
            (own, None)
        }
    }

    /// Prepares the preview's pane: the area inside its border, with a gap on
    /// either side, and the rasterize to kick off. The scroll goes back to the
    /// top when the selection has changed.
    pub fn begin_preview(&mut self, area: Rect, editor: &mut Editor, location: &Option<FileLocation>) -> (begun:
        (Rect, Option<RasterJob>))
        requires
            area.addressable(),
        ensures
            begun.0 == area.framed().gapped(),
            ({
                let settled = if old(self).cursor != old(self).preview_scroll_cursor {
                    Picker {
                        preview_scroll_offset: 0,
                        preview_scroll_cursor: old(self).cursor,
                        ..*old(self)
                    }
                } else {
                    *old(self)
                };
                settled.rasters_for(*final(self), *old(editor), *final(editor), *location, begun.1)
            }),
            old(self).wf() ==> final(self).wf(),
    {
        if self.cursor != self.preview_scroll_cursor {
            self.preview_scroll_offset = 0;
            self.preview_scroll_cursor = self.cursor;
        }
        let job: Option<RasterJob> = self.request_media_raster(editor, location);
        (area.inside_border().inside_gap(), job)
    }

    /// Where the prompt's cursor may be: behind the mode of a modal picker, on
    /// the line that [`Picker::render_picker`] gives the prompt.
    pub fn cursor_area(&self, area: Rect, modal: bool) -> (prompt: Rect)
        ensures
            prompt == layout::left_clipped(
                Rect { width: self.own_width(area), ..layout::top_line(area) },
                layout::mode_width(modal),
            ),
    {
        let preview: bool = self.show_preview && self.has_preview && area.width
            > MIN_AREA_WIDTH_FOR_PREVIEW;
        let width: u16 = if preview { area.width / 2 } else { area.width };
        let mode_width: u16 = if modal { 4 } else { 0 };
        area.inside_border().clip_left(1).with_height(1).with_width(width).clip_left(mode_width)
    }

    /// Takes note of the size that the picker is given; it takes all of it.
    pub fn required_size(&mut self, viewport: (u16, u16)) -> (size: Option<(u16, u16)>)
        ensures
            size == Some(viewport),
            *final(self) == (Picker {
                completion_height: geometry::monus(
                    viewport.1 as int,
                    4 + old(self).header_rows(),
                ) as u16,
                preview_height: geometry::monus(viewport.1 as int, 2) as u16,
                ..*old(self)
            }),
    {
        self.completion_height = viewport.1.saturating_sub(4 + self.header_height());
        // The preview pane's inner height: the box borders take two rows.
        self.preview_height = viewport.1.saturating_sub(2);
        Some(viewport)
    }

    /// The name of the layer that the picker is.
    pub fn id(&self) -> (id: Option<&'static str>)
        ensures
            id matches Some(name) && name@ == "picker"@,
    {
        Some(ID)
    }
}

/// What goes into the preview's pane.
pub enum PreviewContent {
    /// Nothing.
    Nothing,
    /// What is still to be found out: the file is to be looked at, and its
    /// preview kept with [`Picker::insert_preview`].
    Missing,
    /// An image; see [`Picker::draw_preview`].
    Media(MediaPane),
    /// The text of a document, from where this says; see
    /// [`Picker::settle_preview`].
    Text(Anchoring),
    /// These lines.
    Labels(Vec<Label>),
}

/// Whether the page of a PDF can be numbered from one on.
pub open spec fn has_next_page_number(media: MediaState) -> bool {
    media.kind == MediaKind::Pdf ==> media.page < usize::MAX
}

/// Whether the pane shows what a preview calls for.
pub open spec fn shows_preview(
    preview: Preview,
    range: Option<(usize, usize)>,
    inner: Rect,
    scroll: isize,
    content: PreviewContent,
) -> bool {
    match preview.media_shown() {
        Some(media) => content matches PreviewContent::Media(shown) && {
            &&& shown.caption@ == pane::caption_of(media)
            &&& shown.area == (Rect {
                height: geometry::monus(inner.height as int, 1) as u16,
                ..inner
            })
            &&& shown.pan == pane::pan_of(media.kind, scroll)
            &&& shown.upscale == (media.kind == MediaKind::Pdf)
        },
        None => match preview {
            Preview::Cached(CachedPreview::Directory(listing)) => content
                matches PreviewContent::Labels(labels) && {
                &&& labels@.len() == geometry::least(listing@.len() as int, inner.height as int)
                &&& forall|i: int|
                    0 <= i < labels@.len() ==> (#[trigger] labels@[i])@ == pane::listing_row(
                        preview::listing_view(listing@)[i],
                        inner,
                        i,
                    )
            },
            _ => if preview.document_shown() matches Some(doc) && pane::range_fits(
                range,
                doc.line_count,
            ) {
                content matches PreviewContent::Text(plan) && plan == (match range {
                    None => Anchoring::Top,
                    Some((start, end)) => if end - start < inner.height {
                        Anchoring::Centred {
                            start,
                            middle: (start + (end - start) / 2) as usize,
                            up: (inner.height / 2) as usize,
                        }
                    } else {
                        Anchoring::Line { start }
                    },
                })
            } else {
                content matches PreviewContent::Labels(labels) && labels@.len() == 1 && labels@[0]@
                    == pane::alternate_view(preview.alternate(), inner)
            },
        },
    }
}

impl Picker {
    /// What a preview puts into its pane.
    fn content_of(&self, shown: &Preview, range: Option<(usize, usize)>, inner: Rect) -> (content:
        PreviewContent)
        requires
            inner.addressable(),
            shown.media_shown() matches Some(media) ==> has_next_page_number(media),
        ensures
            shows_preview(*shown, range, inner, self.preview_scroll_offset, content),
    {
        match pane::what_is_shown(shown, range) {
            Shown::Media => match shown.media() {
                Some(media) => PreviewContent::Media(
                    pane::media_pane(media, inner, self.preview_scroll_offset),
                ),
                None => PreviewContent::Nothing,
            },
            Shown::Text => PreviewContent::Text(pane::anchoring(range, inner.height)),
            Shown::Listing => match shown.dir_content() {
                Some(listing) => PreviewContent::Labels(pane::listing_labels(listing, inner)),
                None => PreviewContent::Nothing,
            },
            Shown::Alternate => {
                let mut labels: Vec<Label> = Vec::new();
                labels.push(pane::alternate_label(shown.placeholder(), inner));
                PreviewContent::Labels(labels)
            },
        }
    }

    /// What goes into the preview's pane, with the preview from the given
    /// source. `range` are the lines that the selected item is about.
    pub fn preview_content(
        &self,
        editor: &Editor,
        source: PreviewSource,
        range: Option<(usize, usize)>,
        inner: Rect,
    ) -> (content: PreviewContent)
        requires
            inner.addressable(),
            source matches PreviewSource::Document(i) ==> i < editor.documents@.len() && (
            editor.documents@[i as int].media matches Some(media) ==> has_next_page_number(media)),
            source matches PreviewSource::Cached { index, .. } ==> index
                < self.preview_cache.entries@.len() && (self.media_at(
                *editor,
                MediaTarget::Cached(index),
            ) matches Some(media) ==> has_next_page_number(media)),
        ensures
            match source {
                PreviewSource::Nothing => content is Nothing,
                PreviewSource::Missing => content is Missing,
                PreviewSource::Document(i) => shows_preview(
                    Preview::EditorDocument(&editor.documents@[i as int]),
                    range,
                    inner,
                    self.preview_scroll_offset,
                    content,
                ),
                PreviewSource::Cached { index, .. } => shows_preview(
                    Preview::Cached(&self.preview_cache.entries@[index as int].1),
                    range,
                    inner,
                    self.preview_scroll_offset,
                    content,
                ),
            },
    {
        match self.preview_at(editor, source) {
            Some(shown) => self.content_of(&shown, range, inner),
            None => match source {
                PreviewSource::Missing => PreviewContent::Missing,
                _ => PreviewContent::Nothing,
            },
        }
    }

    /// Draws the image of a preview with its caption, and keeps the scroll
    /// offset clamped against it. `fits` are the sizes in cells that the raster
    /// takes in the area of the [`PreviewContent::Media`].
    pub fn draw_preview(
        &mut self,
        surface: &mut Vec<CellWrite>,
        graphics: &mut GraphicsState,
        media: &MediaState,
        inner: Rect,
        fits: Sizes,
    ) -> (label: Option<Label>)
        requires
            media.kind == MediaKind::Pdf ==> media.page < usize::MAX,
            inner.addressable(),
            inner.width > 0 ==> fits.whole.0 <= inner.width && fits.wide.0 <= inner.width,
        ensures
            ({
                let area = Rect { height: geometry::monus(inner.height as int, 1) as u16, ..inner };
                let pan = pane::pan_of(media.kind, old(self).preview_scroll_offset);
                let fit = draw::fit_for(area, fits, pan as u16);
                let placement = draw::placed(area, fit.0, fit.1);
                &&& draw::drawing(
                    *old(graphics),
                    *final(graphics),
                    old(surface)@,
                    final(surface)@,
                    area,
                    media.raster,
                    fit,
                    pan as u16,
                )
                &&& if area.width > 0 && area.height > 0 && old(graphics).mode
                    == GraphicsMode::Kitty {
                    &&& *final(self) == (Picker {
                        preview_scroll_offset: geometry::least(
                            pan,
                            placement.max_pan as int,
                        ) as isize,
                        ..*old(self)
                    })
                    &&& label matches Some(l) && l@ == pane::caption_label(
                        pane::drawn_caption(pane::caption_of(*media), pan, placement),
                        inner,
                        placement,
                    )
                } else {
                    &&& *final(self) == *old(self)
                    &&& if old(graphics).mode == GraphicsMode::Off {
                        label matches Some(l) && l@ == pane::alternate_view(
                            "<No image support in this terminal>"@,
                            inner,
                        )
                    } else {
                        label is None
                    }
                }
            }),
    {
        let drawn: MediaDrawn = pane::draw_media(
            surface,
            graphics,
            media,
            inner,
            self.preview_scroll_offset,
            fits,
        );
        if let Some(scroll) = drawn.scroll {
            self.preview_scroll_offset = scroll;
        }
        drawn.label
    }

    /// Where the text of a preview starts, and keeps the scroll offset clamped
    /// against the text. What is handed in is what
    /// [`settle_scroll`](pane::settle_scroll) takes.
    pub fn settle_preview(
        &mut self,
        natural: ViewPosition,
        moved: ViewPosition,
        bottom: usize,
        rows: Option<usize>,
    ) -> (outcome: Scrolled)
        requires
            rows matches Some(n) ==> n <= isize::MAX,
        ensures
            outcome == pane::settled(
                natural,
                old(self).preview_scroll_offset,
                moved,
                bottom,
                rows,
            ),
            *final(self) == (Picker { preview_scroll_offset: outcome.scroll, ..*old(self) }),
    {
        let outcome: Scrolled = pane::settle_scroll(
            natural,
            self.preview_scroll_offset,
            moved,
            bottom,
            rows,
        );
        self.preview_scroll_offset = outcome.scroll;
        outcome
    }
}

/// In a window too narrow for a preview, `PageUp` and `PageDown` keep paging
/// the list, and the line-wise preview keys go to the query.
pub proof fn law_narrow_windows_page_the_list(picker: Picker, area: Rect)
    requires
        area.width <= MIN_AREA_WIDTH_FOR_PREVIEW,
    ensures
        ({
            let drawn = Picker { preview_visible: picker.fits_preview(area), ..picker };
            &&& !drawn.previews()
            &&& key::shared_binding(key::key(key::KeyCode::PageDown), drawn.previews()) == Some(
                Command::PageDown,
            )
            &&& key::shared_binding(key::key(key::KeyCode::PageUp), drawn.previews()) == Some(
                Command::PageUp,
            )
            &&& key::shared_binding(key::alt(key::KeyCode::Char('j')), drawn.previews()) is None
        }),
{
}

/// The prompt's cursor is on the line that the prompt is drawn on, at its
/// start, as long as there is room for it.
pub proof fn law_the_cursor_is_in_the_prompt(picker: Picker, area: Rect, modal: bool, drawn: PickerLayout)
    requires
        area.addressable(),
        picker.own_width(area) > 3 + layout::mode_width(modal),
        exists|running: bool, matched: u32, total: u32, cursor: u32|
            drawn.fits(
                Rect { width: picker.own_width(area), ..area },
                modal,
                picker.mode,
                running,
                matched,
                total,
                cursor,
                picker.header_rows(),
            ),
    ensures
        ({
            let prompt = layout::left_clipped(
                Rect { width: picker.own_width(area), ..layout::top_line(area) },
                layout::mode_width(modal),
            );
            prompt.x == drawn.line.x && prompt.y == drawn.line.y && prompt.height
                == drawn.line.height
        }),
{
}

/// The cursor stays where it is unless the matches have changed and no longer
/// reach it; then it is on the last of them.
pub proof fn law_the_cursor_stays_on_the_matches(cursor: u32, matched: int)
    requires
        0 <= matched,
    ensures
        Picker::cursor_after(cursor, false, matched) == cursor,
        cursor < matched ==> Picker::cursor_after(cursor, true, matched) == cursor,
        0 < matched <= cursor ==> Picker::cursor_after(cursor, true, matched) == matched - 1,
        matched == 0 ==> Picker::cursor_after(cursor, true, matched) == 0,
{
}

/// There is nothing more to come once the matcher is done and nobody can add
/// items any more, and not before.
pub proof fn law_matching_ends_when_nobody_adds(status: matcher::Status, injectors: usize)
    ensures
        !Picker::more_to_come(status, injectors) <==> !status.running && injectors == 0,
{
}

/// The rows shown are the matches of the page, in their order: the first row is
/// the first match of the page, and the selected row holds the match that the
/// cursor is on.
pub proof fn law_rows_are_the_matches_of_the_page(
    picker: Picker,
    after: Picker,
    status: matcher::Status,
    injectors: usize,
    area: Rect,
    modal: bool,
    layout: PickerLayout,
    keys: Seq<u64>,
)
    requires
        picker.shows(after, status, injectors, area, modal, layout, keys),
        picker.matches().len() <= u32::MAX,
        layout.list.height > picker.header_rows(),
        after.cursor < picker.matches().len(),
    ensures
        keys.len() == layout.end - layout.first,
        forall|i: int|
            0 <= i < keys.len() ==> #[trigger] keys[i] == picker.matches()[layout.first + i],
        keys.len() + picker.header_rows() <= layout.list.height,
        layout.selected < keys.len(),
        keys[layout.selected as int] == picker.matches()[after.cursor as int],
        after == (Picker { cursor: after.cursor, ..picker }),
        status.changed || after.cursor == picker.cursor,
{
    layout::law_pages_fit_below_the_header(
        layout,
        area,
        modal,
        picker.mode,
        Picker::more_to_come(status, injectors),
        picker.matches().len() as u32,
        matcher::item_total(picker.matcher),
        after.cursor,
        picker.header_rows(),
    );
}

/// A preview is shown in a window wider than 72 columns, if the items have one
/// and it is not toggled off. The panes lie side by side and fill the window; a
/// preview takes half of it, and the odd column.
pub proof fn law_panes_fill_the_window(picker: Picker, area: Rect)
    requires
        area.x + area.width <= u16::MAX,
    ensures
        picker.fits_preview(area) <==> area.width >= 73 && picker.show_preview
            && picker.has_preview,
        !picker.fits_preview(area) ==> picker.own_width(area) == area.width,
        picker.fits_preview(area) ==> {
            let own = picker.own_width(area);
            let beside = layout::left_clipped(area, own as int);
            &&& beside.x == area.x + own
            &&& own + beside.width == area.width
            &&& 0 <= beside.width - own <= 1
            &&& beside.y == area.y && beside.height == area.height
        },
{
}

/// Columns that are shown have their widths in order: the first that is shown
/// has the first, and each other the next.
pub proof fn law_shown_columns_are_counted(columns: Seq<Column>, i: int)
    requires
        0 <= i < columns.len(),
    ensures
        shown_before(columns, 0) == 0,
        marked_before(columns, 0) == 0,
        columns[i].hidden ==> shown_before(columns, i + 1) == shown_before(columns, i),
        !columns[i].hidden ==> shown_before(columns, i + 1) == shown_before(columns, i) + 1,
        !columns[i].hidden && columns[i].filter ==> marked_before(columns, i + 1) == marked_before(
            columns,
            i,
        ) + 1,
        columns[i].hidden || !columns[i].filter ==> marked_before(columns, i + 1) == marked_before(
            columns,
            i,
        ),
        0 <= shown_before(columns, i) <= i,
{
    lemma_marked_before(columns, i);
}

/// The number of columns shown never goes down on the way.
proof fn lemma_shown_before_grows(columns: Seq<Column>, i: int, j: int)
    requires
        0 <= i <= j <= columns.len(),
    ensures
        shown_before(columns, i) <= shown_before(columns, j),
        0 <= shown_before(columns, i) <= i,
    decreases j,
{
    lemma_marked_before(columns, i);
    if i < j {
        lemma_shown_before_grows(columns, i, j - 1);
    }
}

/// A column that is shown becomes just as wide as its cell needs it to be: it
/// never gets narrower, and no wider than it was or the cell is. Columns that
/// are not of the row keep their widths.
pub proof fn law_columns_are_as_wide_as_they_need(
    columns: Seq<Column>,
    widths: Seq<u16>,
    cells: Seq<Vec<CellSpan>>,
    i: int,
)
    requires
        widths.len() == columns.len(),
        cells.len() == columns.len(),
        0 <= i < columns.len(),
        !columns[i].hidden,
        highlight::total_width(cells[i]@) <= u16::MAX,
    ensures
        ({
            let after = widened(columns, widths, cells, columns.len() as int);
            let n = shown_before(columns, i);
            let needed = highlight::total_width(cells[i]@);
            &&& after.len() == widths.len()
            &&& after[n] >= widths[n]
            &&& after[n] >= needed
            &&& after[n] == widths[n] || after[n] == needed
        }),
{
    lemma_total_width(cells[i]@);
    lemma_widened(columns, widths, cells, i, columns.len() as int);
}

proof fn lemma_widened(
    columns: Seq<Column>,
    widths: Seq<u16>,
    cells: Seq<Vec<CellSpan>>,
    i: int,
    m: int,
)
    requires
        widths.len() == columns.len(),
        cells.len() == columns.len(),
        0 <= i < columns.len(),
        !columns[i].hidden,
        0 <= m <= columns.len(),
    ensures
        ({
            let after = widened(columns, widths, cells, m);
            let n = shown_before(columns, i);
            let needed = highlight::total_width(cells[i]@) % 65536;
            &&& 0 <= n < widths.len()
            &&& after.len() == widths.len()
            &&& m <= i ==> after[n] == widths[n]
            &&& m > i ==> after[n] == (if needed <= widths[n] {
                widths[n] as int
            } else {
                needed
            })
        }),
    decreases m,
{
    lemma_marked_before(columns, i);
    if m > 0 {
        lemma_widened(columns, widths, cells, i, m - 1);
        lemma_marked_before(columns, m - 1);
        let n = shown_before(columns, m - 1);
        if m - 1 < i {
            lemma_shown_before_grows(columns, m, i);
        } else if m - 1 > i {
            lemma_shown_before_grows(columns, i + 1, m - 1);
        }
        lemma_total_width(cells[m - 1]@);
    }
}

/// Widths are not negative.
proof fn lemma_total_width(spans: Seq<CellSpan>)
    ensures
        0 <= highlight::total_width(spans),
    decreases spans.len(),
{
    if spans.len() > 0 {
        lemma_total_width(spans.drop_last());
    }
}

/// A cell shows nothing where its column is hidden, is left as formatted where
/// its column is not filtered by, and else has its matches picked out.
pub proof fn law_cells_are_marked_where_filtered(
    picker: Picker,
    row: u32,
    i: int,
    spans: Seq<CellSpan>,
    plain: u64,
    cell: RowCell,
)
    requires
        picker.shows_cell(row, i, spans, plain, cell),
    ensures
        picker.columns@[i].hidden <==> cell is Blank,
        !picker.columns@[i].hidden && !picker.columns@[i].filter <==> cell is AsFormatted,
        !picker.columns@[i].hidden && picker.columns@[i].filter <==> cell is Marked,
{
}

/// What a pane shows: a picture where there is one, lines of a listing, text
/// where the lines asked for are in the document, and else one line in its
/// place.
pub proof fn law_panes_show_what_there_is(
    preview: Preview,
    range: Option<(usize, usize)>,
    inner: Rect,
    scroll: isize,
    content: PreviewContent,
)
    requires
        shows_preview(preview, range, inner, scroll, content),
    ensures
        preview.media_shown() is Some <==> content is Media,
        content matches PreviewContent::Media(shown) ==> shown.area.x == inner.x && shown.area.y
            == inner.y && shown.area.width == inner.width && (inner.height > 0
            ==> shown.area.height + 1 == inner.height),
        content matches PreviewContent::Media(shown) ==> (shown.upscale <==> (
        preview.media_shown() matches Some(media) && media.kind == MediaKind::Pdf)),
        content is Text ==> preview.document_shown() is Some && (range matches Some((start, end))
            ==> start <= end <= preview.document_shown().unwrap().line_count),
        preview.media_shown() is None && preview.document_shown() is Some && range is None
            ==> content == PreviewContent::Text(Anchoring::Top),
        preview.media_shown() is None && preview.document_shown() is None && !(preview
            matches Preview::Cached(CachedPreview::Directory(_))) ==> (content
            matches PreviewContent::Labels(labels) && labels@.len() == 1 && labels@[0].content@
            == preview.alternate()),
        content !is Nothing && content !is Missing,
{
}

/// The prompt's cursor may be anywhere behind the mode, in as many columns as
/// the picker's own pane has.
pub proof fn law_the_cursor_has_the_rest_of_the_pane(picker: Picker, area: Rect, modal: bool)
    requires
        area.x + area.width < u16::MAX,
        area.y + area.height < u16::MAX,
        area.width >= 3,
        area.height >= 2,
        picker.own_width(area) >= 4,
        picker.own_width(area) + area.x + 2 <= u16::MAX,
    ensures
        ({
            let prompt = layout::left_clipped(
                Rect { width: picker.own_width(area), ..layout::top_line(area) },
                layout::mode_width(modal),
            );
            let mode = if modal {
                4int
            } else {
                0
            };
            &&& prompt.x == area.x + 2 + mode
            &&& prompt.y == area.y + 1
            &&& prompt.height == 1
            &&& prompt.width == picker.own_width(area) - mode
        }),
{
}

/// Without matches no rows are shown.
pub proof fn law_no_matches_no_rows(
    picker: Picker,
    after: Picker,
    status: matcher::Status,
    injectors: usize,
    area: Rect,
    modal: bool,
    layout: PickerLayout,
    keys: Seq<u64>,
)
    requires
        picker.shows(after, status, injectors, area, modal, layout, keys),
        picker.matches().len() == 0,
    ensures
        keys.len() == 0,
{
}

/// The text of a document starts at the lines that are asked for: where they fit
/// the pane they are in its middle, to the line, and else they start at its top.
pub proof fn law_the_lines_asked_for_are_shown(
    preview: Preview,
    start: usize,
    end: usize,
    inner: Rect,
    scroll: isize,
    content: PreviewContent,
)
    requires
        shows_preview(preview, Some((start, end)), inner, scroll, content),
        preview.media_shown() is None,
        preview.document_shown() matches Some(doc) && start <= end <= doc.line_count,
        start + end <= usize::MAX,
    ensures
        end - start >= inner.height ==> content == PreviewContent::Text(Anchoring::Line { start }),
        end - start < inner.height ==> (content matches PreviewContent::Text(
            Anchoring::Centred { start: from, middle, up },
        ) && from == start && 0 <= (start + end) - 2 * middle <= 1 && 0 <= inner.height - 2 * up
            <= 1),
{
}

/// A directory is shown as its rows, as many as there is room for, from the
/// first on.
pub proof fn law_directories_are_shown_row_by_row(
    listing: Vec<(String, bool)>,
    range: Option<(usize, usize)>,
    inner: Rect,
    scroll: isize,
    content: PreviewContent,
    i: int,
)
    requires
        shows_preview(
            Preview::Cached(&CachedPreview::Directory(listing)),
            range,
            inner,
            scroll,
            content,
        ),
        0 <= i < listing@.len(),
        i < inner.height,
    ensures
        content matches PreviewContent::Labels(labels) && labels@.len() <= inner.height
            && labels@.len() <= listing@.len() && i < labels@.len() && labels@[i].content@
            == listing@[i].0@ && labels@[i].x == inner.x && labels@[i].y == inner.y + i,
{
    if let PreviewContent::Labels(labels) = content {
        assert(labels@[i]@ == pane::listing_row(
            preview::listing_view(listing@)[i],
            inner,
            i,
        ));
    }
}

/// A picture is shown with its caption, panned as the preview is scrolled.
pub proof fn law_pictures_are_shown_with_their_caption(
    preview: Preview,
    range: Option<(usize, usize)>,
    inner: Rect,
    scroll: isize,
    content: PreviewContent,
    media: MediaState,
)
    requires
        shows_preview(preview, range, inner, scroll, content),
        preview.media_shown() == Some(media),
    ensures
        content matches PreviewContent::Media(shown) && shown.caption@ == pane::caption_of(media)
            && shown.pan == (if media.kind == MediaKind::Pdf || scroll < 0 {
            0
        } else if scroll > 65535 {
            65535
        } else {
            scroll as int
        }),
{
}

/// Whatever page the cursor is on, the rows shown are matches that follow each
/// other, from the first of the page on.
pub proof fn law_rows_follow_each_other(
    picker: Picker,
    after: Picker,
    status: matcher::Status,
    injectors: usize,
    area: Rect,
    modal: bool,
    layout: PickerLayout,
    keys: Seq<u64>,
    i: int,
)
    requires
        picker.shows(after, status, injectors, area, modal, layout, keys),
        picker.matches().len() <= u32::MAX,
    ensures
        layout.first <= layout.end ==> keys.len() == layout.end - layout.first,
        layout.first > layout.end ==> keys.len() == 0,
        0 <= i < keys.len() ==> keys[i] == picker.matches()[layout.first + i],
{
}

/// Where every column that is filtered by is shown, columns are marked by what
/// the matcher found in them.
proof fn lemma_marked_columns_are_filters(columns: Seq<Column>, i: int)
    requires
        0 <= i <= columns.len(),
        forall|j: int| 0 <= j < i && (#[trigger] columns[j]).filter ==> !columns[j].hidden,
    ensures
        marked_before(columns, i) == column::filters_before(columns, i),
    decreases i,
{
    if i > 0 {
        lemma_marked_columns_are_filters(columns, i - 1);
        assert(columns[i - 1].filter ==> !columns[i - 1].hidden);
    }
}

/// In a cell that is filtered by, the characters that the matcher found in its
/// own column stand out, and no others: each character has the style of its
/// cluster, and of matched clusters the one for matches.
pub proof fn law_cells_are_marked_by_their_own_matches(
    picker: Picker,
    row: u32,
    i: int,
    spans: Seq<CellSpan>,
    plain: u64,
    cell: RowCell,
)
    requires
        picker.shows_cell(row, i, spans, plain, cell),
        0 <= i < picker.columns@.len(),
        picker.columns@[i].filter,
        forall|j: int|
            0 <= j <= i && (#[trigger] picker.columns@[j]).filter ==> !picker.columns@[j].hidden,
    ensures
        cell matches RowCell::Marked(list) && ({
            let shown = Seq::new(list@.len(), |k: int| (list@[k].content@, list@[k].style));
            let found = matcher::match_positions(
                picker.matcher,
                row,
                column::filters_before(picker.columns@, i) as usize,
                picker.has_preview,
            );
            highlight::character_styles(shown) == highlight::character_styles(
                highlight::styled(highlight::all_clusters(spans), found),
            )
        }),
{
    lemma_marked_columns_are_filters(picker.columns@, i);
    assert(!picker.columns@[i].hidden);
    if let RowCell::Marked(list) = cell {
        let shown = Seq::new(list@.len(), |k: int| (list@[k].content@, list@[k].style));
        let found = matcher::match_positions(
            picker.matcher,
            row,
            marked_before(picker.columns@, i) as usize,
            picker.has_preview,
        );
        let parts = highlight::styled(highlight::all_clusters(spans), found);
        assert(shown =~= list@.map_values(|t: StyledText| highlight::run_view(t)));
        highlight::law_runs_keep_every_style(parts, plain);
    }
}

} // verus!
