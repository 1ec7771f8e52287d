//! Scrolling the preview of a picker, turning its pages, and where the preview
//! comes from.
use vstd::prelude::*;
use vstd::string::*;
use crate::geometry;
use crate::graphics::GraphicsMode;
use crate::media::{MediaKind, MediaState, Raster, RasterRequest};
use crate::path::FilePath;
use crate::picker::Picker;
use crate::preview;
use crate::preview::{
    CachedPreview, DocumentId, Editor, FileLocation, MediaPreview, PathOrId, Preview,
};

verus! {

/// Where the state behind a media preview lives, so that the picker can page
/// it. A media file already open in the editor keeps its state on the document
/// (and so shares the page with the editor's own view of it); otherwise the
/// picker owns it in its preview cache.
#[derive(Debug, Clone, Copy, PartialEq, Eq, Structural)]
pub enum MediaTarget {
    /// The editor's document at this index.
    Document(usize),
    /// The cache entry at this index.
    Cached(usize),
}

/// A rasterize to run off the main thread, and what it is for.
pub enum RasterJob {
    /// For a document that is open in the editor.
    Document(DocumentId, RasterRequest),
    /// For the picker's own preview of a file.
    Cached(FilePath, RasterRequest),
}

/// What a rasterize was for.
pub enum RasterTarget {
    /// A document that was open in the editor.
    Document(DocumentId),
    /// The picker's own preview of a file.
    Cached(FilePath),
}

/// Where the preview of the selected item comes from.
#[derive(Debug, Clone, Copy, PartialEq, Eq, Structural)]
pub enum PreviewSource {
    /// There is none.
    Nothing,
    /// The editor's document at this index.
    Document(usize),
    /// The cache entry at this index.
    Cached {
        index: usize,
        /// Whether its text is still to be highlighted.
        highlight: bool,
        /// Whether it is still to be rasterized.
        rasterize: bool,
    },
    /// The file is still to be looked at; see [`Picker::insert_preview`].
    Missing,
}

/// Whether a preview's text is still to be highlighted.
pub open spec fn wants_highlight(preview: CachedPreview) -> bool {
    preview matches CachedPreview::Document(doc) && !doc.highlighted
}

/// Whether the text of a preview that was just made is to be highlighted: the
/// language has to be known for that.
pub open spec fn wants_first_highlight(preview: CachedPreview) -> bool {
    preview matches CachedPreview::Document(doc) && doc.has_language
}

/// Whether a preview is still to be rasterized, with nothing started.
pub open spec fn wants_raster(preview: CachedPreview) -> bool {
    preview matches CachedPreview::Media(MediaPreview::Rendering { kind, started }) && !started
}

/// A number read as a signed one of the same size.
pub open spec fn as_signed(n: usize) -> int {
    if n <= isize::MAX {
        n as int
    } else {
        n - usize::MAX - 1
    }
}

/// The page that turning by `pages` leads to, clamped to the document as far
/// as its end is known.
pub open spec fn page_after(media: MediaState, pages: isize) -> int {
    let sum = as_signed(media.page) + pages;
    let page = if sum < 0 {
        0
    } else {
        geometry::least(sum, isize::MAX as int)
    };
    match media.page_count {
        Some(count) => geometry::least(page, geometry::monus(count as int, 1)),
        None => page,
    }
}

/// A sum of two signed numbers, as far as it can be counted.
pub open spec fn clamped_sum(a: isize, b: isize) -> int {
    if a + b > isize::MAX {
        isize::MAX as int
    } else if a + b < isize::MIN {
        isize::MIN as int
    } else {
        a + b
    }
}

/// A sum of two signed numbers, as far as it can be counted.
fn saturating_sum(a: isize, b: isize) -> (sum: isize)
    ensures
        sum == clamped_sum(a, b),
{
    if b > 0 && a > isize::MAX - b {
        isize::MAX
    } else if b < 0 && a < isize::MIN - b {
        isize::MIN
    } else {
        a + b
    }
}

/// The sign of a number.
pub open spec fn sign(n: isize) -> isize {
    if n > 0 {
        1
    } else if n < 0 {
        (-1) as isize
    } else {
        0
    }
}

/// The amount that a line-wise scroll down moves by: whatever its sign, a
/// number of lines leads down, as far as it can be counted.
pub open spec fn rows_down(scroll_lines: isize) -> isize {
    if scroll_lines >= 0 {
        scroll_lines
    } else if scroll_lines > isize::MIN {
        (-scroll_lines) as isize
    } else {
        isize::MAX
    }
}

/// The amount that a line-wise scroll up moves by.
pub open spec fn rows_up(scroll_lines: isize) -> isize {
    if scroll_lines > 0 {
        (-scroll_lines) as isize
    } else {
        scroll_lines
    }
}

/// The editor with another state of a document's media.
pub open spec fn media_in_editor(before: Editor, after: Editor, index: int, media: MediaState) -> bool {
    &&& after == (Editor { documents: after.documents, ..before })
    &&& after.documents@ == before.documents@.update(
        index,
        preview::Document { media: Some(media), ..before.documents@[index] },
    )
}

/// The picker with another state of the media of a cache entry.
pub open spec fn media_in_cache(before: Picker, after: Picker, index: int, media: MediaState) -> bool {
    &&& after == (Picker { preview_cache: after.preview_cache, ..before })
    &&& after.preview_cache.entries@ == before.preview_cache.entries@.update(
        index,
        (
            before.preview_cache.entries@[index].0,
            CachedPreview::Media(MediaPreview::Ready(Box::new(media))),
        ),
    )
}

impl Picker {
    /// The media state that a target names.
    pub open spec fn media_at(&self, editor: Editor, target: MediaTarget) -> Option<MediaState> {
        match target {
            MediaTarget::Document(i) => editor.documents@[i as int].media,
            MediaTarget::Cached(i) => match self.preview_cache.entries@[i as int].1 {
                CachedPreview::Media(MediaPreview::Ready(media)) => Some(*media),
                _ => None,
            },
        }
    }

    /// Whether a target names something there is.
    pub open spec fn has_target(&self, editor: Editor, target: MediaTarget) -> bool {
        match target {
            MediaTarget::Document(i) => i < editor.documents@.len(),
            MediaTarget::Cached(i) => i < self.preview_cache.entries@.len(),
        }
    }

    /// Where the previewed file is found, with the location that the selected
    /// item has.
    pub open spec fn media_place(&self, editor: Editor, location: Option<FileLocation>) -> Option<
        MediaTarget,
    > {
        if self.selected() is None || !self.has_preview {
            None
        } else {
            match location {
                None => None,
                Some((PathOrId::Id(id), _)) => match preview::document_with_id(
                    editor.documents@,
                    id,
                    0,
                ) {
                    Some(i) => Some(MediaTarget::Document(i as usize)),
                    None => None,
                },
                Some((PathOrId::Path(p), _)) => match preview::document_at_path(
                    editor.documents@,
                    p@,
                    0,
                ) {
                    Some(i) => Some(MediaTarget::Document(i as usize)),
                    None => match preview::entry_for(self.preview_cache.entries@, p@, 0) {
                        Some(i) => Some(MediaTarget::Cached(i as usize)),
                        None => None,
                    },
                },
            }
        }
    }

    /// Where the media state of the currently selected preview lives, and what
    /// kind of media it is.
    pub open spec fn media_selected(&self, editor: Editor, location: Option<FileLocation>) -> Option<
        (MediaTarget, MediaKind),
    > {
        match self.media_place(editor, location) {
            None => None,
            Some(target) => match self.media_at(editor, target) {
                Some(media) => Some((target, media.kind)),
                None => None,
            },
        }
    }

    /// Where the media state of the currently selected preview lives, and what
    /// kind of media it is. `None` when the selection has no preview or its
    /// preview is not a rasterized image or PDF (including one that has not
    /// finished rasterizing yet, which has no page to turn). `location` is the
    /// file that the selected item refers to.
    pub fn selected_media(&self, editor: &Editor, location: &Option<FileLocation>) -> (place: Option<
        (MediaTarget, MediaKind),
    >)
        ensures
            place == self.media_selected(*editor, *location),
            place matches Some((target, kind)) ==> self.has_target(*editor, target),
    {
        if self.selection().is_none() || !self.has_preview {
            return None;
        }
        let index: Option<usize> = match location {
            None => return None,
            Some((PathOrId::Id(id), _)) => editor.document_by_id(*id),
            Some((PathOrId::Path(p), _)) => match editor.document_by_path(p) {
                Some(i) => Some(i),
                None => {
                    return match self.preview_cache.find(p) {
                        Some(i) => match &self.preview_cache.entries[i].1 {
                            CachedPreview::Media(MediaPreview::Ready(media)) => Some(
                                (MediaTarget::Cached(i), media.kind),
                            ),
                            _ => None,
                        },
                        None => None,
                    };
                },
            },
        };
        match index {
            Some(i) => match &editor.documents[i].media {
                Some(media) => Some((MediaTarget::Document(i), media.kind)),
                None => None,
            },
            None => None,
        }
    }

    /// What turning a preview by a number of pages does.
    pub open spec fn pages_to(
        self,
        after: Picker,
        editor: Editor,
        editor_after: Editor,
        target: MediaTarget,
        pages: isize,
    ) -> bool {
        match self.media_at(editor, target) {
            None => after == self && editor_after == editor,
            Some(media) => {
                let page = page_after(media, pages) as usize;
                if page == media.page {
                    after == self && editor_after == editor
                } else {
                    match media.turn_error(page) {
                        Some(err) => {
                            &&& after == self
                            &&& editor_after == (Editor { error: editor_after.error, ..editor })
                            &&& editor_after.error matches Some(message) && message@ == err.text()
                        },
                        None => match target {
                            MediaTarget::Document(i) => after == self && media_in_editor(
                                editor,
                                editor_after,
                                i as int,
                                media.turned(page),
                            ),
                            MediaTarget::Cached(i) => editor_after == editor && media_in_cache(
                                self,
                                after,
                                i as int,
                                media.turned(page),
                            ),
                        },
                    }
                }
            },
        }
    }

    /// Turns a PDF preview by `pages`, clamped to the document. Paging only
    /// moves a counter; the page it lands on is rasterized off the main thread
    /// by [`Picker::request_media_raster`] on the next frame, so holding the key
    /// neither blocks the picker nor renders pages that go by on the way.
    pub fn page_media(&mut self, editor: &mut Editor, target: MediaTarget, pages: isize)
        requires
            old(self).has_target(*old(editor), target),
        ensures
            old(self).pages_to(*final(self), *old(editor), *final(editor), target, pages),
            old(self).wf() ==> final(self).wf(),
    {
        let media: &MediaState = match target {
            MediaTarget::Document(i) => match &editor.documents[i].media {
                Some(media) => media,
                None => return ,
            },
            MediaTarget::Cached(i) => match &self.preview_cache.entries[i].1 {
                CachedPreview::Media(MediaPreview::Ready(media)) => media,
                _ => return ,
            },
        };
        let current: usize = media.page;
        let signed: isize = if current <= isize::MAX as usize {
            current as isize
        } else {
            -1 - ((usize::MAX - current) as isize)
        };
        let sum: isize = saturating_sum(signed, pages);
        let mut page: usize = if sum < 0 { 0 } else { sum as usize };
        if let Some(count) = media.page_count {
            let last: usize = count.saturating_sub(1);
            if last < page {
                page = last;
            }
        }
        if page == current {
            // Stay quiet at either end of the document.
            return ;
        }
        if let Some(error) = media.page_error(page) {
            // Unknown page count: paging past the end fails.
            editor.error = Some(error.message());
            return ;
        }
        self.turn_media(editor, target, page);
    }

    /// Turns the media that a target names to a page that it can turn to.
    fn turn_media(&mut self, editor: &mut Editor, target: MediaTarget, page: usize)
        requires
            old(self).has_target(*old(editor), target),
            old(self).media_at(*old(editor), target) matches Some(media) && media.turn_error(page)
                is None,
        ensures
            old(self).wf() ==> final(self).wf(),
            ({
                let turned = old(self).media_at(*old(editor), target).unwrap().turned(page);
                match target {
                    MediaTarget::Document(i) => *final(self) == *old(self) && media_in_editor(
                        *old(editor),
                        *final(editor),
                        i as int,
                        turned,
                    ),
                    MediaTarget::Cached(i) => *final(editor) == *old(editor) && media_in_cache(
                        *old(self),
                        *final(self),
                        i as int,
                        turned,
                    ),
                }
            }),
    {
        let ghost turned = self.media_at(*editor, target).unwrap().turned(page);
        match target {
            MediaTarget::Document(i) => {
                if let Some(media) = &mut editor.documents[i].media {
                    let _ = media.goto_page(page);
                }
                assert(editor.documents@ =~= old(editor).documents@.update(
                    i as int,
                    preview::Document { media: Some(turned), ..old(editor).documents@[i as int] },
                ));
            },
            MediaTarget::Cached(i) => {
                if let CachedPreview::Media(MediaPreview::Ready(media)) =
                    &mut self.preview_cache.entries[i].1 {
                    let _ = media.goto_page(page);
                }
                assert(self.preview_cache.entries@ =~= old(self).preview_cache.entries@.update(
                    i as int,
                    (
                        old(self).preview_cache.entries@[i as int].0,
                        CachedPreview::Media(MediaPreview::Ready(Box::new(turned))),
                    ),
                ));
            },
        }
    }
}

impl Picker {
    /// What scrolling the preview by a number of rows does.
    pub open spec fn scrolls_to(
        self,
        after: Picker,
        editor: Editor,
        editor_after: Editor,
        location: Option<FileLocation>,
        amount: isize,
    ) -> bool {
        let sum = clamped_sum(self.preview_scroll_offset, amount) as isize;
        match self.media_selected(editor, location) {
            Some((target, MediaKind::Pdf)) => self.pages_to(
                after,
                editor,
                editor_after,
                target,
                sign(amount),
            ),
            Some((_, MediaKind::Image)) => {
                &&& editor_after == editor
                &&& after == (Picker {
                    preview_scroll_offset: if sum < 0 {
                        0
                    } else {
                        sum
                    },
                    ..self
                })
            },
            None => editor_after == editor && after == (Picker { preview_scroll_offset: sum, ..self }),
        }
    }

    /// Scrolls the preview by `amount` rows, down for a positive amount and up
    /// for a negative one. `location` is the file that the selected item
    /// refers to.
    ///
    /// A document preview scrolls by visual (soft-wrapped) rows, so a file with
    /// long lines can be read to its end one wrapped row at a time; the offset
    /// is clamped against the file bounds later, when the preview is rendered
    /// and the soft-wrap layout is known. An image pans by placement rows,
    /// clamped against the placement when it is drawn. A PDF pages instead:
    /// every scroll key turns exactly one page.
    pub fn scroll_preview(
        &mut self,
        amount: isize,
        editor: &mut Editor,
        location: &Option<FileLocation>,
    )
        ensures
            old(self).scrolls_to(*final(self), *old(editor), *final(editor), *location, amount),
            old(self).wf() ==> final(self).wf(),
    {
        match self.selected_media(editor, location) {
            Some((target, MediaKind::Pdf)) => {
                let step: isize = if amount > 0 {
                    1
                } else if amount < 0 {
                    -1
                } else {
                    0
                };
                self.page_media(editor, target, step);
            },
            // Clamped at the top here and at the bottom of the placement when
            // the image is drawn, so overscroll can't accumulate in either
            // direction.
            Some((_, MediaKind::Image)) => {
                let sum: isize = saturating_sum(self.preview_scroll_offset, amount);
                self.preview_scroll_offset = if sum < 0 { 0 } else { sum };
            },
            None => {
                self.preview_scroll_offset = saturating_sum(self.preview_scroll_offset, amount);
            },
        }
    }

    /// Scrolls the preview down one line (the editor's `scroll_lines` rows of
    /// it).
    pub fn scroll_preview_line_down(&mut self, editor: &mut Editor, location: &Option<FileLocation>)
        ensures
            old(self).scrolls_to(
                *final(self),
                *old(editor),
                *final(editor),
                *location,
                rows_down(old(editor).scroll_lines),
            ),
            old(self).wf() ==> final(self).wf(),
    {
        let rows: isize = if editor.scroll_lines >= 0 {
            editor.scroll_lines
        } else if editor.scroll_lines > isize::MIN {
            -editor.scroll_lines
        } else {
            isize::MAX
        };
        self.scroll_preview(rows, editor, location);
    }

    /// Scrolls the preview up one line (the editor's `scroll_lines` rows of it).
    pub fn scroll_preview_line_up(&mut self, editor: &mut Editor, location: &Option<FileLocation>)
        ensures
            old(self).scrolls_to(
                *final(self),
                *old(editor),
                *final(editor),
                *location,
                rows_up(old(editor).scroll_lines),
            ),
            old(self).wf() ==> final(self).wf(),
    {
        let rows: isize = if editor.scroll_lines > 0 {
            -editor.scroll_lines
        } else {
            editor.scroll_lines
        };
        self.scroll_preview(rows, editor, location);
    }

    /// Scrolls the preview down by the height of the preview pane.
    pub fn scroll_preview_page_down(&mut self, editor: &mut Editor, location: &Option<FileLocation>)
        ensures
            old(self).scrolls_to(
                *final(self),
                *old(editor),
                *final(editor),
                *location,
                old(self).preview_height as isize,
            ),
            old(self).wf() ==> final(self).wf(),
    {
        self.scroll_preview(self.preview_height as isize, editor, location);
    }

    /// Scrolls the preview up by the height of the preview pane.
    pub fn scroll_preview_page_up(&mut self, editor: &mut Editor, location: &Option<FileLocation>)
        ensures
            old(self).scrolls_to(
                *final(self),
                *old(editor),
                *final(editor),
                *location,
                (-(old(self).preview_height as isize)) as isize,
            ),
            old(self).wf() ==> final(self).wf(),
    {
        self.scroll_preview(-(self.preview_height as isize), editor, location);
    }

    /// The PDF preview that is to be rasterized now, if there is one.
    pub open spec fn raster_due(&self, editor: Editor, location: Option<FileLocation>) -> Option<
        MediaTarget,
    > {
        match self.media_selected(editor, location) {
            Some((target, MediaKind::Pdf)) => if editor.graphics.mode != GraphicsMode::Off
                && self.media_at(editor, target).unwrap().wants_raster() {
                Some(target)
            } else {
                None
            },
            _ => None,
        }
    }

    /// What asking for a rasterize does.
    pub open spec fn rasters_for(
        self,
        after: Picker,
        editor: Editor,
        editor_after: Editor,
        location: Option<FileLocation>,
        job: Option<RasterJob>,
    ) -> bool {
        match self.raster_due(editor, location) {
            None => after == self && editor_after == editor && job is None,
            Some(target) => {
                let media = self.media_at(editor, target).unwrap();
                let taken = MediaState { pending: Some(media.page), ..media };
                match target {
                    MediaTarget::Document(i) => {
                        &&& after == self
                        &&& media_in_editor(editor, editor_after, i as int, taken)
                        &&& job matches Some(RasterJob::Document(id, request)) && id
                            == editor.documents@[i as int].id && request.source@ == media.source@
                            && request.mtime == media.mtime && request.page == media.page
                    },
                    MediaTarget::Cached(i) => {
                        &&& editor_after == editor
                        &&& media_in_cache(self, after, i as int, taken)
                        &&& job matches Some(RasterJob::Cached(p, request)) && p@
                            == self.preview_cache.entries@[i as int].0@ && request.source@
                            == media.source@ && request.mtime == media.mtime && request.page
                            == media.page
                    },
                }
            },
        }
    }

    /// The rasterize to kick off for a PDF preview that has been paged, if one
    /// is outstanding and none is already running. Called every frame, so the
    /// page landed on is picked up even when several pages went by while a
    /// rasterize was in flight.
    pub fn request_media_raster(&mut self, editor: &mut Editor, location: &Option<FileLocation>) -> (job:
        Option<RasterJob>)
        ensures
            old(self).rasters_for(*final(self), *old(editor), *final(editor), *location, job),
            old(self).wf() ==> final(self).wf(),
    {
        if editor.graphics.mode == GraphicsMode::Off {
            return None;
        }
        let target: MediaTarget = match self.selected_media(editor, location) {
            Some((target, MediaKind::Pdf)) => target,
            _ => return None,
        };
        let media: &MediaState = match target {
            MediaTarget::Document(i) => match &editor.documents[i].media {
                Some(media) => media,
                None => return None,
            },
            MediaTarget::Cached(i) => match &self.preview_cache.entries[i].1 {
                CachedPreview::Media(MediaPreview::Ready(media)) => media,
                _ => return None,
            },
        };
        if !media.needs_raster() {
            return None;
        }
        let ghost taken = MediaState { pending: Some(media.page), ..*media };
        match target {
            MediaTarget::Document(i) => {
                let id: DocumentId = editor.documents[i].id;
                let mut request: Option<RasterRequest> = None;
                if let Some(media) = &mut editor.documents[i].media {
                    request = media.take_raster_request();
                }
                assert(editor.documents@ =~= old(editor).documents@.update(
                    i as int,
                    preview::Document { media: Some(taken), ..old(editor).documents@[i as int] },
                ));
                match request {
                    Some(request) => Some(RasterJob::Document(id, request)),
                    None => None,
                }
            },
            MediaTarget::Cached(i) => {
                let path: FilePath = self.preview_cache.entries[i].0.duplicate();
                let mut request: Option<RasterRequest> = None;
                if let CachedPreview::Media(MediaPreview::Ready(media)) =
                    &mut self.preview_cache.entries[i].1 {
                    request = media.take_raster_request();
                }
                assert(self.preview_cache.entries@ =~= old(self).preview_cache.entries@.update(
                    i as int,
                    (
                        old(self).preview_cache.entries@[i as int].0,
                        CachedPreview::Media(MediaPreview::Ready(Box::new(taken))),
                    ),
                ));
                match request {
                    Some(request) => Some(RasterJob::Cached(path, request)),
                    None => None,
                }
            },
        }
    }

    /// Starts on a cached image or PDF that is still to be rasterized: its
    /// kind, or `None` where there is nothing to start. Once started it is not
    /// started again.
    pub fn start_raster(&mut self, index: usize) -> (kind: Option<MediaKind>)
        requires
            index < old(self).preview_cache.entries@.len(),
        ensures
            kind is Some <==> wants_raster(old(self).preview_cache.entries@[index as int].1),
            match kind {
                Some(kind) => {
                    let (file, preview) = old(self).preview_cache.entries@[index as int];
                    &&& preview == CachedPreview::Media(
                        MediaPreview::Rendering { kind, started: false },
                    )
                    &&& *final(self) == (Picker {
                        preview_cache: final(self).preview_cache,
                        ..*old(self)
                    })
                    &&& final(self).preview_cache.entries@
                        == old(self).preview_cache.entries@.update(
                        index as int,
                        (
                            file,
                            CachedPreview::Media(MediaPreview::Rendering { kind, started: true }),
                        ),
                    )
                },
                None => *final(self) == *old(self),
            },
            old(self).wf() ==> final(self).wf(),
    {
        let kind: MediaKind = match &self.preview_cache.entries[index].1 {
            CachedPreview::Media(MediaPreview::Rendering { kind, started: false }) => *kind,
            _ => return None,
        };
        self.preview_cache.entries[index].1 = CachedPreview::Media(
            MediaPreview::Rendering { kind, started: true },
        );
        Some(kind)
    }

    /// Where the media that a rasterize was for lives now.
    pub open spec fn raster_place(&self, editor: Editor, target: RasterTarget) -> Option<MediaTarget> {
        match target {
            RasterTarget::Document(id) => match preview::document_with_id(
                editor.documents@,
                id,
                0,
            ) {
                Some(i) => Some(MediaTarget::Document(i as usize)),
                None => None,
            },
            RasterTarget::Cached(p) => match preview::entry_for(
                self.preview_cache.entries@,
                p@,
                0,
            ) {
                Some(i) => Some(MediaTarget::Cached(i as usize)),
                None => None,
            },
        }
    }

    /// The media that a rasterize was for, if it is still about.
    pub open spec fn raster_media(&self, editor: Editor, target: RasterTarget) -> Option<MediaState> {
        match self.raster_place(editor, target) {
            Some(place) => self.media_at(editor, place),
            None => None,
        }
    }

    /// Takes over the outcome of a rasterize that ran off the main thread. It
    /// is dropped if what it was for is gone, and is up to
    /// [`MediaState::finish_raster`] otherwise.
    pub fn finish_raster<E>(
        &mut self,
        editor: &mut Editor,
        target: &RasterTarget,
        page: usize,
        raster: Result<Raster, E>,
    ) -> (shown: Result<(), E>)
        ensures
            match old(self).raster_media(*old(editor), *target) {
                None => *final(self) == *old(self) && *final(editor) == *old(editor) && shown is Ok,
                Some(media) => {
                    &&& shown == media.verdict(page, raster)
                    &&& match old(self).raster_place(*old(editor), *target).unwrap() {
                        MediaTarget::Document(i) => *final(self) == *old(self) && media_in_editor(
                            *old(editor),
                            *final(editor),
                            i as int,
                            media.finished(page, raster),
                        ),
                        MediaTarget::Cached(i) => *final(editor) == *old(editor) && media_in_cache(
                            *old(self),
                            *final(self),
                            i as int,
                            media.finished(page, raster),
                        ),
                    }
                },
            },
            old(self).wf() ==> final(self).wf(),
    {
        match target {
            RasterTarget::Document(id) => match editor.document_by_id(*id) {
                Some(i) => {
                    if editor.documents[i].media.is_none() {
                        return Ok(());
                    }
                    let mut shown: Result<(), E> = Ok(());
                    if let Some(media) = &mut editor.documents[i].media {
                        shown = media.finish_raster(page, raster);
                    }
                    assert(editor.documents@ =~= old(editor).documents@.update(
                        i as int,
                        preview::Document {
                            media: editor.documents@[i as int].media,
                            ..old(editor).documents@[i as int]
                        },
                    ));
                    shown
                },
                None => Ok(()),
            },
            RasterTarget::Cached(p) => match self.preview_cache.find(p) {
                Some(i) => {
                    let ready: bool = match &self.preview_cache.entries[i].1 {
                        CachedPreview::Media(MediaPreview::Ready(_)) => true,
                        _ => false,
                    };
                    if !ready {
                        return Ok(());
                    }
                    let mut shown: Result<(), E> = Ok(());
                    if let CachedPreview::Media(MediaPreview::Ready(media)) =
                        &mut self.preview_cache.entries[i].1 {
                        shown = media.finish_raster(page, raster);
                    }
                    assert(self.preview_cache.entries@ =~= old(self).preview_cache.entries@.update(
                        i as int,
                        self.preview_cache.entries@[i as int],
                    ));
                    shown
                },
                None => Ok(()),
            },
        }
    }

    /// Where the preview of the selected item comes from.
    pub open spec fn preview_source(&self, editor: Editor, location: Option<FileLocation>) -> PreviewSource {
        match location {
            None => PreviewSource::Nothing,
            Some((place, _)) => match self.media_place(editor, location) {
                Some(MediaTarget::Document(i)) => PreviewSource::Document(i),
                Some(MediaTarget::Cached(i)) => PreviewSource::Cached {
                    index: i,
                    highlight: wants_highlight(self.preview_cache.entries@[i as int].1),
                    rasterize: wants_raster(self.preview_cache.entries@[i as int].1),
                },
                None => if self.selected() is Some && self.has_preview && place is Path {
                    PreviewSource::Missing
                } else {
                    PreviewSource::Nothing
                },
            },
        }
    }

    /// Where the preview of the currently selected item comes from: if the file
    /// is already open in the editor, its document is used, and otherwise a
    /// cached preview. `location` is the file that the item refers to; a
    /// document that it names is open.
    pub fn get_preview(&self, editor: &Editor, location: &Option<FileLocation>) -> (source:
        PreviewSource)
        requires
            self.selected() is Some && self.has_preview ==> (location matches Some(
                (PathOrId::Id(id), _),
            ) ==> preview::document_with_id(editor.documents@, *id, 0) is Some),
        ensures
            source == self.preview_source(*editor, *location),
            source matches PreviewSource::Document(i) ==> i < editor.documents@.len(),
            source matches PreviewSource::Cached { index, .. } ==> index
                < self.preview_cache.entries@.len(),
    {
        if self.selection().is_none() || !self.has_preview {
            return PreviewSource::Nothing;
        }
        match location {
            None => PreviewSource::Nothing,
            Some((PathOrId::Id(id), _)) => match editor.document_by_id(*id) {
                Some(i) => PreviewSource::Document(i),
                None => PreviewSource::Nothing,
            },
            Some((PathOrId::Path(p), _)) => match editor.document_by_path(p) {
                Some(i) => PreviewSource::Document(i),
                None => match self.preview_cache.find(p) {
                    Some(index) => {
                        let cached: &CachedPreview = &self.preview_cache.entries[index].1;
                        let highlight: bool = match cached {
                            CachedPreview::Document(doc) => !doc.highlighted,
                            _ => false,
                        };
                        let rasterize: bool = match cached {
                            CachedPreview::Media(MediaPreview::Rendering { started, .. }) => !*started,
                            _ => false,
                        };
                        PreviewSource::Cached { index, highlight, rasterize }
                    },
                    None => PreviewSource::Missing,
                },
            },
        }
    }

    /// Keeps the preview of a file that was [`PreviewSource::Missing`], and
    /// says where it is kept. A new document is highlighted if its language is
    /// known.
    pub fn insert_preview(&mut self, path: FilePath, made: CachedPreview) -> (source: PreviewSource)
        requires
            old(self).wf(),
        ensures
            final(self).wf(),
            *final(self) == (Picker { preview_cache: final(self).preview_cache, ..*old(self) }),
            source matches PreviewSource::Cached { index, highlight, rasterize } && {
                &&& highlight == wants_first_highlight(made)
                &&& rasterize == wants_raster(made)
                &&& match preview::entry_for(old(self).preview_cache.entries@, path@, 0) {
                    Some(i) => index == i && final(self).preview_cache.entries@
                        == old(self).preview_cache.entries@.update(
                        i,
                        (old(self).preview_cache.entries@[i].0, made),
                    ),
                    None => index == old(self).preview_cache.entries@.len()
                        && final(self).preview_cache.entries@
                        == old(self).preview_cache.entries@.push((path, made)),
                }
                &&& preview::entry_for(final(self).preview_cache.entries@, path@, 0) == Some(
                    index as int,
                )
            },
    {
        let highlight: bool = match &made {
            CachedPreview::Document(doc) => doc.has_language,
            _ => false,
        };
        let rasterize: bool = match &made {
            CachedPreview::Media(MediaPreview::Rendering { started, .. }) => !*started,
            _ => false,
        };
        let index: usize = self.preview_cache.insert(path, made);
        PreviewSource::Cached { index, highlight, rasterize }
    }

    /// The preview that a source stands for.
    pub fn preview_at<'picker, 'editor>(
        &'picker self,
        editor: &'editor Editor,
        source: PreviewSource,
    ) -> (shown: Option<Preview<'picker, 'editor>>)
        requires
            source matches PreviewSource::Document(i) ==> i < editor.documents@.len(),
            source matches PreviewSource::Cached { index, .. } ==> index
                < self.preview_cache.entries@.len(),
        ensures
            match source {
                PreviewSource::Document(i) => shown matches Some(Preview::EditorDocument(doc)) && *doc
                    == editor.documents@[i as int],
                PreviewSource::Cached { index, .. } => shown matches Some(Preview::Cached(cached))
                    && *cached == self.preview_cache.entries@[index as int].1,
                _ => shown is None,
            },
    {
        match source {
            PreviewSource::Document(i) => Some(Preview::EditorDocument(&editor.documents[i])),
            PreviewSource::Cached { index, .. } => Some(
                Preview::Cached(&self.preview_cache.entries[index].1),
            ),
            _ => None,
        }
    }
}

/// A scroll key turns a PDF by exactly one page, and by none at either end.
pub proof fn law_scrolling_turns_one_page(media: MediaState, amount: isize)
    requires
        media.page < isize::MAX,
        media.page_count matches Some(count) ==> media.page < count,
    ensures
        amount > 0 ==> page_after(media, sign(amount)) == (if media.page_count == Some(
            (media.page + 1) as usize,
        ) {
            media.page as int
        } else {
            media.page + 1
        }),
        amount < 0 ==> page_after(media, sign(amount)) == (if media.page == 0 {
            0
        } else {
            media.page - 1
        }),
{
}

/// Turning pages never leads past a known end of the document, so it never
/// fails there.
pub proof fn law_paging_stays_in_the_document(media: MediaState, pages: isize, count: usize)
    requires
        media.kind == MediaKind::Pdf,
        media.page_count == Some(count),
        count > 0,
    ensures
        0 <= page_after(media, pages) < count,
        media.turn_error(page_after(media, pages) as usize) is None,
{
}

/// Scrolling the preview of a PDF leaves the scroll offset alone: it turns
/// pages instead.
pub proof fn law_pdf_previews_do_not_scroll(
    picker: Picker,
    after: Picker,
    editor: Editor,
    editor_after: Editor,
    location: Option<FileLocation>,
    amount: isize,
)
    requires
        picker.media_selected(editor, location) matches Some((_, MediaKind::Pdf)),
        picker.scrolls_to(after, editor, editor_after, location, amount),
    ensures
        after.preview_scroll_offset == picker.preview_scroll_offset,
{
}

/// An image is never panned above its top.
pub proof fn law_images_are_not_panned_above_their_top(
    picker: Picker,
    after: Picker,
    editor: Editor,
    editor_after: Editor,
    location: Option<FileLocation>,
    amount: isize,
)
    requires
        picker.media_selected(editor, location) matches Some((_, MediaKind::Image)),
        picker.scrolls_to(after, editor, editor_after, location, amount),
    ensures
        after.preview_scroll_offset >= 0,
{
}

/// A file that is open in the editor is previewed as it is there, whatever the
/// cache holds for it.
pub proof fn law_open_documents_come_first(
    picker: Picker,
    editor: Editor,
    file: FilePath,
    range: Option<(usize, usize)>,
    index: int,
)
    requires
        picker.selected() is Some,
        picker.has_preview,
        preview::document_at_path(editor.documents@, file@, 0) == Some(index),
    ensures
        picker.preview_source(editor, Some((PathOrId::Path(&file), range)))
            == PreviewSource::Document(index as usize),
{
}

/// Sums are sums as long as they can be counted, and stop at the ends of what
/// can be.
pub proof fn law_sums_stop_at_the_ends(a: isize, b: isize)
    ensures
        isize::MIN <= a + b <= isize::MAX ==> clamped_sum(a, b) == a + b,
        a + b > isize::MAX ==> clamped_sum(a, b) == isize::MAX,
        a + b < isize::MIN ==> clamped_sum(a, b) == isize::MIN,
{
}

/// A sign has the direction of its number, and counts for one.
pub proof fn law_signs_keep_the_direction(n: isize)
    ensures
        -1 <= sign(n) <= 1,
        sign(n) > 0 <==> n > 0,
        sign(n) < 0 <==> n < 0,
{
}

/// Line-wise scrolls lead down and up, whatever the sign of the number of
/// lines, and both as far.
pub proof fn law_lines_lead_down_and_up(scroll_lines: isize)
    ensures
        rows_down(scroll_lines) >= 0,
        rows_up(scroll_lines) <= 0,
        scroll_lines >= 0 ==> rows_down(scroll_lines) == scroll_lines,
        scroll_lines <= 0 ==> rows_up(scroll_lines) == scroll_lines,
        scroll_lines > isize::MIN ==> rows_up(scroll_lines) + rows_down(scroll_lines) == 0,
        scroll_lines == isize::MIN ==> rows_down(scroll_lines) == isize::MAX,
{
}

/// Turning by a number of pages leads as many pages on or back, but not before
/// the first page nor past a known last one.
pub proof fn law_pages_are_turned_one_for_one(media: MediaState, pages: isize)
    requires
        media.page <= isize::MAX,
    ensures
        media.page + pages < 0 ==> page_after(media, pages) == 0,
        media.page_count is None && 0 <= media.page + pages <= isize::MAX ==> page_after(media, pages)
            == media.page + pages,
        media.page_count matches Some(count) ==> (0 <= media.page + pages < count && media.page
            + pages <= isize::MAX ==> page_after(media, pages) == media.page + pages),
        media.page_count matches Some(count) ==> (0 < count <= media.page + pages <= isize::MAX
            ==> page_after(media, pages) == count - 1),
{
}

/// Scrolling the preview of anything but media adds to the scroll offset; that
/// of an image too, but stops at its top. Nothing else changes.
pub proof fn law_scrolling_adds_up(
    picker: Picker,
    after: Picker,
    editor: Editor,
    editor_after: Editor,
    location: Option<FileLocation>,
    amount: isize,
)
    requires
        picker.scrolls_to(after, editor, editor_after, location, amount),
        isize::MIN <= picker.preview_scroll_offset + amount <= isize::MAX,
        !(picker.media_selected(editor, location) matches Some((_, MediaKind::Pdf))),
    ensures
        editor_after == editor,
        after == (Picker { preview_scroll_offset: after.preview_scroll_offset, ..picker }),
        picker.media_selected(editor, location) is None ==> after.preview_scroll_offset
            == picker.preview_scroll_offset + amount,
        picker.media_selected(editor, location) is Some && picker.preview_scroll_offset + amount >= 0
            ==> after.preview_scroll_offset == picker.preview_scroll_offset + amount,
        picker.media_selected(editor, location) is Some && picker.preview_scroll_offset + amount < 0
            ==> after.preview_scroll_offset == 0,
{
}

/// Scrolling the preview of a PDF down turns to the next page, and scrolling it
/// up to the page before, however far it is scrolled. Only the page of the
/// document changes, and not past either end.
pub proof fn law_scrolling_a_pdf_turns_its_page(
    picker: Picker,
    after: Picker,
    editor: Editor,
    editor_after: Editor,
    location: Option<FileLocation>,
    amount: isize,
    index: usize,
)
    requires
        picker.scrolls_to(after, editor, editor_after, location, amount),
        picker.media_selected(editor, location) == Some(
            (MediaTarget::Document(index), MediaKind::Pdf),
        ),
        index < editor.documents@.len(),
        editor.documents@[index as int].media is Some,
        ({
            let media = editor.documents@[index as int].media.unwrap();
            media.kind == MediaKind::Pdf && media.page < isize::MAX && (media.page_count
                matches Some(count) ==> media.page < count)
        }),
    ensures
        ({
            let media = editor.documents@[index as int].media.unwrap();
            let now = editor_after.documents@[index as int].media;
            &&& after == picker
            &&& editor_after.documents@.len() == editor.documents@.len()
            &&& forall|i: int|
                0 <= i < editor.documents@.len() && i != index
                    ==> #[trigger] editor_after.documents@[i] == editor.documents@[i]
            &&& editor_after.error == editor.error && editor_after.graphics == editor.graphics
            &&& now matches Some(turned) && {
                &&& turned == (MediaState { page: turned.page, ..media })
                &&& amount > 0 ==> turned.page == (if media.page_count == Some(
                    (media.page + 1) as usize,
                ) {
                    media.page as int
                } else {
                    media.page + 1
                })
                &&& amount < 0 ==> turned.page == (if media.page == 0 {
                    0
                } else {
                    media.page - 1
                })
                &&& amount == 0 ==> turned.page == media.page
            }
        }),
{
    let media = editor.documents@[index as int].media.unwrap();
    law_scrolling_turns_one_page(media, amount);
}

/// The same of a PDF that the picker shows by itself.
pub proof fn law_scrolling_a_cached_pdf_turns_its_page(
    picker: Picker,
    after: Picker,
    editor: Editor,
    editor_after: Editor,
    location: Option<FileLocation>,
    amount: isize,
    index: usize,
    media: MediaState,
)
    requires
        picker.scrolls_to(after, editor, editor_after, location, amount),
        picker.media_selected(editor, location) == Some(
            (MediaTarget::Cached(index), MediaKind::Pdf),
        ),
        index < picker.preview_cache.entries@.len(),
        picker.preview_cache.entries@[index as int].1 == CachedPreview::Media(
            MediaPreview::Ready(Box::new(media)),
        ),
        media.kind == MediaKind::Pdf,
        media.page < isize::MAX,
        media.page_count matches Some(count) ==> media.page < count,
    ensures
        ({
            let before = picker.preview_cache.entries@;
            let now = after.preview_cache.entries@;
            &&& editor_after == editor
            &&& after == (Picker { preview_cache: after.preview_cache, ..picker })
            &&& now.len() == before.len()
            &&& forall|i: int|
                0 <= i < before.len() && i != index ==> #[trigger] now[i] == before[i]
            &&& now[index as int].0 == before[index as int].0
            &&& now[index as int].1 matches CachedPreview::Media(MediaPreview::Ready(turned)) && {
                &&& *turned == (MediaState { page: turned.page, ..media })
                &&& amount > 0 ==> turned.page == (if media.page_count == Some(
                    (media.page + 1) as usize,
                ) {
                    media.page as int
                } else {
                    media.page + 1
                })
                &&& amount < 0 ==> turned.page == (if media.page == 0 {
                    0
                } else {
                    media.page - 1
                })
                &&& amount == 0 ==> turned.page == media.page
            }
        }),
{
    law_scrolling_turns_one_page(media, amount);
}

/// An image has no pages to turn: the editor is told so, and nothing else
/// changes.
pub proof fn law_images_are_not_turned(
    picker: Picker,
    after: Picker,
    editor: Editor,
    editor_after: Editor,
    target: MediaTarget,
    pages: isize,
)
    requires
        picker.pages_to(after, editor, editor_after, target, pages),
        picker.media_at(editor, target) matches Some(media) && media.kind == MediaKind::Image
            && page_after(media, pages) != media.page && 0 <= page_after(media, pages)
            <= usize::MAX,
    ensures
        after == picker,
        editor_after.documents == editor.documents,
        editor_after.error matches Some(message) && message@ == "not a paginated document"@,
{
}

/// A rasterize is asked for the page that a selected PDF is on, while the raster
/// is of another page, no other rasterize runs and there are graphics to show it
/// with; it is then the one that runs. Else nothing changes.
pub proof fn law_the_page_shown_is_rasterized(
    picker: Picker,
    after: Picker,
    editor: Editor,
    editor_after: Editor,
    location: Option<FileLocation>,
    job: Option<RasterJob>,
    index: usize,
)
    requires
        picker.rasters_for(after, editor, editor_after, location, job),
        picker.media_selected(editor, location) == Some(
            (MediaTarget::Document(index), MediaKind::Pdf),
        ),
        index < editor.documents@.len(),
        editor.documents@[index as int].media is Some,
        editor.documents@[index as int].media.unwrap().kind == MediaKind::Pdf,
    ensures
        after == picker,
        ({
            let media = editor.documents@[index as int].media.unwrap();
            let due = editor.graphics.mode == GraphicsMode::Kitty && media.rastered != media.page
                && media.pending is None;
            &&& job is Some <==> due
            &&& !due ==> editor_after == editor
            &&& due ==> {
                &&& job matches Some(RasterJob::Document(id, request)) && id
                    == editor.documents@[index as int].id && request.page == media.page
                    && request.source@ == media.source@ && request.mtime == media.mtime
                &&& editor_after.documents@[index as int].media matches Some(now) && now == (
                MediaState { pending: Some(media.page), ..media })
                &&& editor_after.documents@.len() == editor.documents@.len()
                &&& forall|i: int|
                    0 <= i < editor.documents@.len() && i != index
                        ==> #[trigger] editor_after.documents@[i] == editor.documents@[i]
            }
        }),
{
}

/// The same of a PDF that the picker shows by itself: the rasterize is for the
/// file that the entry is for.
pub proof fn law_the_cached_page_shown_is_rasterized(
    picker: Picker,
    after: Picker,
    editor: Editor,
    editor_after: Editor,
    location: Option<FileLocation>,
    job: Option<RasterJob>,
    index: usize,
    media: MediaState,
)
    requires
        picker.rasters_for(after, editor, editor_after, location, job),
        picker.media_selected(editor, location) == Some(
            (MediaTarget::Cached(index), MediaKind::Pdf),
        ),
        index < picker.preview_cache.entries@.len(),
        picker.preview_cache.entries@[index as int].1 == CachedPreview::Media(
            MediaPreview::Ready(Box::new(media)),
        ),
        media.kind == MediaKind::Pdf,
    ensures
        editor_after == editor,
        ({
            let before = picker.preview_cache.entries@;
            let now = after.preview_cache.entries@;
            let due = editor.graphics.mode == GraphicsMode::Kitty && media.rastered != media.page
                && media.pending is None;
            &&& job is Some <==> due
            &&& !due ==> after == picker
            &&& due ==> {
                &&& job matches Some(RasterJob::Cached(file, request)) && file@
                    == before[index as int].0@ && request.page == media.page && request.source@
                    == media.source@ && request.mtime == media.mtime
                &&& now[index as int].1 matches CachedPreview::Media(MediaPreview::Ready(taken))
                    && *taken == (MediaState { pending: Some(media.page), ..media })
                &&& now.len() == before.len()
                &&& forall|i: int|
                    0 <= i < before.len() && i != index ==> #[trigger] now[i] == before[i]
            }
        }),
{
}

/// Without a PDF selected there is nothing to rasterize.
pub proof fn law_only_pdfs_are_rasterized_again(
    picker: Picker,
    after: Picker,
    editor: Editor,
    editor_after: Editor,
    location: Option<FileLocation>,
    job: Option<RasterJob>,
)
    requires
        picker.rasters_for(after, editor, editor_after, location, job),
        !(picker.media_selected(editor, location) matches Some((_, MediaKind::Pdf)))
            || editor.graphics.mode == GraphicsMode::Off,
    ensures
        job is None,
        after == picker,
        editor_after == editor,
{
}

/// A file that the cache holds a preview of, and no document shows, is
/// previewed from the cache: its text is highlighted once, and it is rasterized
/// once. A file that neither holds is still to be looked at.
pub proof fn law_other_files_come_from_the_cache(
    picker: Picker,
    editor: Editor,
    file: FilePath,
    range: Option<(usize, usize)>,
)
    requires
        picker.selected() is Some,
        picker.has_preview,
        forall|i: int|
            0 <= i < editor.documents@.len() ==> !(#[trigger] editor.documents@[i]).shows(file@),
    ensures
        ({
            let source = picker.preview_source(editor, Some((PathOrId::Path(&file), range)));
            match preview::entry_for(picker.preview_cache.entries@, file@, 0) {
                None => source == PreviewSource::Missing,
                Some(i) => source matches PreviewSource::Cached { index, highlight, rasterize }
                    && index == i as usize && {
                    let held = picker.preview_cache.entries@[i as usize as int].1;
                    &&& highlight <==> (held matches CachedPreview::Document(doc)
                        && !doc.highlighted)
                    &&& rasterize <==> (held matches CachedPreview::Media(
                        MediaPreview::Rendering { started: false, .. },
                    ))
                },
            }
        }),
{
    preview::law_documents_are_found_by_path(editor.documents@, file@);
}

/// Without a selection, or without previews, there is none to show.
pub proof fn law_previews_need_a_selection(
    picker: Picker,
    editor: Editor,
    location: Option<FileLocation>,
)
    ensures
        !picker.has_preview || picker.cursor >= picker.matches().len() || location is None
            ==> picker.preview_source(editor, location) == PreviewSource::Nothing
            && picker.media_selected(editor, location) is None,
        picker.has_preview && picker.cursor < picker.matches().len() ==> (location matches Some(
            (PathOrId::Id(id), _),
        ) ==> picker.preview_source(editor, location) == (match preview::document_with_id(
            editor.documents@,
            id,
            0,
        ) {
            Some(i) => PreviewSource::Document(i as usize),
            None => PreviewSource::Nothing,
        })),
{
}

/// A new preview is highlighted if it is of text in a known language, and
/// rasterized if it is of an image or PDF that nothing was started for.
pub proof fn law_new_previews_are_finished_later(made: CachedPreview)
    ensures
        wants_first_highlight(made) <==> (made matches CachedPreview::Document(doc)
            && doc.has_language),
        wants_highlight(made) <==> (made matches CachedPreview::Document(doc) && !doc.highlighted),
        wants_raster(made) <==> (made matches CachedPreview::Media(
            MediaPreview::Rendering { started: false, .. },
        )),
{
}

/// What is selected as media is what the place of the preview holds: the media
/// of a document, or a picture that is ready in the cache.
pub proof fn law_selected_media_is_what_is_held(
    picker: Picker,
    editor: Editor,
    location: Option<FileLocation>,
    target: MediaTarget,
    kind: MediaKind,
)
    requires
        picker.media_selected(editor, location) == Some((target, kind)),
    ensures
        match target {
            MediaTarget::Document(i) => editor.documents@[i as int].media matches Some(media)
                && media.kind == kind,
            MediaTarget::Cached(i) => picker.preview_cache.entries@[i as int].1
                matches CachedPreview::Media(MediaPreview::Ready(media)) && media.kind == kind,
        },
        picker.media_place(editor, location) == Some(target),
{
}

/// The outcome of a rasterize goes back to what it was for: the document of
/// that name, or the entry for that file.
pub proof fn law_outcomes_go_where_they_belong(
    picker: Picker,
    editor: Editor,
    id: DocumentId,
    file: FilePath,
)
    ensures
        picker.raster_place(editor, RasterTarget::Document(id)) == (match preview::document_with_id(
            editor.documents@,
            id,
            0,
        ) {
            Some(i) => Some(MediaTarget::Document(i as usize)),
            None => None,
        }),
        picker.raster_place(editor, RasterTarget::Cached(file)) == (match preview::entry_for(
            picker.preview_cache.entries@,
            file@,
            0,
        ) {
            Some(i) => Some(MediaTarget::Cached(i as usize)),
            None => None,
        }),
{
}

/// Turning the pages of a document that is open changes the page of that
/// document, and nothing else.
pub proof fn law_turned_documents_are_on_their_page(
    picker: Picker,
    after: Picker,
    editor: Editor,
    editor_after: Editor,
    index: usize,
    pages: isize,
)
    requires
        picker.pages_to(after, editor, editor_after, MediaTarget::Document(index), pages),
        index < editor.documents@.len(),
        editor.documents@[index as int].media matches Some(media) && media.kind == MediaKind::Pdf
            && 0 <= page_after(media, pages) <= usize::MAX && (media.page_count matches Some(count)
            ==> count > 0),
    ensures
        after == picker,
        editor_after == (Editor { documents: editor_after.documents, ..editor }),
        editor_after.documents@.len() == editor.documents@.len(),
        forall|i: int|
            0 <= i < editor.documents@.len() && i != index ==> #[trigger] editor_after.documents@[i]
                == editor.documents@[i],
        ({
            let media = editor.documents@[index as int].media.unwrap();
            let doc = editor_after.documents@[index as int];
            &&& doc == (preview::Document { media: doc.media, ..editor.documents@[index as int] })
            &&& doc.media matches Some(now) && now == (MediaState { page: now.page, ..media })
                && now.page == page_after(media, pages)
        }),
{
}

/// A number is read as itself where it fits, and else as one less by the size of
/// the range.
pub proof fn law_large_numbers_are_read_as_negative(n: usize)
    ensures
        n <= isize::MAX ==> as_signed(n) == n,
        n > isize::MAX ==> as_signed(n) == n - (usize::MAX + 1),
{
}

/// The media that an outcome is for is that of the document, or what is ready
/// in the cache.
pub proof fn law_outcomes_find_their_media(picker: Picker, editor: Editor, target: RasterTarget)
    ensures
        match picker.raster_place(editor, target) {
            None => picker.raster_media(editor, target) is None,
            Some(MediaTarget::Document(i)) => picker.raster_media(editor, target)
                == editor.documents@[i as int].media,
            Some(MediaTarget::Cached(i)) => match picker.preview_cache.entries@[i as int].1 {
                CachedPreview::Media(MediaPreview::Ready(media)) => picker.raster_media(
                    editor,
                    target,
                ) == Some(*media),
                _ => picker.raster_media(editor, target) is None,
            },
        },
{
}

/// Scrolling stops where the offset cannot be counted any further.
pub proof fn law_scrolling_stops_at_the_ends(
    picker: Picker,
    after: Picker,
    editor: Editor,
    editor_after: Editor,
    location: Option<FileLocation>,
    amount: isize,
)
    requires
        picker.scrolls_to(after, editor, editor_after, location, amount),
        !(picker.media_selected(editor, location) matches Some((_, MediaKind::Pdf))),
    ensures
        picker.preview_scroll_offset + amount > isize::MAX ==> after.preview_scroll_offset
            == isize::MAX,
        picker.preview_scroll_offset + amount < isize::MIN ==> after.preview_scroll_offset == (
        if picker.media_selected(editor, location) is None {
            isize::MIN as int
        } else {
            0
        }),
{
}

/// A document that is known to have no pages stays at the first.
pub proof fn law_empty_documents_stay_at_the_first_page(media: MediaState, pages: isize)
    requires
        media.page_count == Some(0usize),
    ensures
        page_after(media, pages) == 0,
{
}

} // verus!
