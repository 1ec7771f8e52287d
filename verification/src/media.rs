//! Non-text documents: images, and PDFs of which one page is shown.
use std::time::SystemTime;
use vstd::prelude::*;
use vstd::string::*;
use vstd::utf8::*;
use crate::path;
use crate::path::FilePath;
use crate::text;

verus! {

/// `std::time::SystemTime`, carried along unread.
#[verifier::external_type_specification]
#[verifier::external_body]
pub struct ExSystemTime(SystemTime);

/// What a media document is.
#[derive(Debug, Clone, Copy, PartialEq, Eq, Structural)]
pub enum MediaKind {
    Image,
    Pdf,
}

/// The kind of media that a lower-case file name extension stands for.
pub open spec fn kind_of(ext: Seq<char>) -> Option<MediaKind> {
    if ext == "pdf"@ {
        Some(MediaKind::Pdf)
    } else if ext == "png"@ || ext == "jpg"@ || ext == "jpeg"@ || ext == "gif"@ || ext == "bmp"@ || ext
        == "webp"@ || ext == "tif"@ || ext == "tiff"@ || ext == "ico"@ || ext == "heic"@ || ext
        == "heif"@ || ext == "avif"@ || ext == "svg"@ {
        Some(MediaKind::Image)
    } else {
        None
    }
}

/// The kind of media that a lower-case file name extension stands for.
pub fn kind_of_extension(ext: &str) -> (kind: Option<MediaKind>)
    ensures
        kind == kind_of(ext@),
{
    if text::same_text(ext, "pdf") {
        Some(MediaKind::Pdf)
    } else if text::same_text(ext, "png") || text::same_text(ext, "jpg") || text::same_text(ext, "jpeg")
        || text::same_text(ext, "gif") || text::same_text(ext, "bmp") || text::same_text(ext, "webp")
        || text::same_text(ext, "tif") || text::same_text(ext, "tiff") || text::same_text(ext, "ico")
        || text::same_text(ext, "heic") || text::same_text(ext, "heif") || text::same_text(ext, "avif")
        || text::same_text(ext, "svg") {
        Some(MediaKind::Image)
    } else {
        None
    }
}

/// The kind of media that a path stands for, by its extension in lower case.
pub open spec fn detected(path: Seq<u8>) -> Option<MediaKind> {
    match path::extension_of(path) {
        None => None,
        Some(ext) => if valid_utf8(ext) {
            kind_of(text::lowercase(decode_utf8(ext)))
        } else {
            None
        },
    }
}

/// Detects whether a path should open as a media document, by extension. The
/// case of the extension does not matter.
pub fn detect_kind(path: &FilePath) -> (kind: Option<MediaKind>)
    ensures
        kind == detected(path@),
        path::extension_of(path@) matches Some(ext) ==> valid_utf8(ext) && is_ascii_chars(
            decode_utf8(ext),
        ) ==> kind == kind_of(decode_utf8(ext).map_values(|c: char| text::ascii_lower(c))),
{
    match path.extension() {
        None => None,
        Some(ext) => match text::as_text(ext.as_slice()) {
            None => None,
            Some(name) => kind_of_extension(text::to_lowercase(name).as_str()),
        },
    }
}

/// A rasterized page: a PNG on disk plus its pixel dimensions and the kitty
/// image id it is transmitted under.
pub struct Raster {
    pub png: FilePath,
    pub width: u32,
    pub height: u32,
    pub id: u32,
}

impl Raster {
    /// Whether two rasters are the same picture.
    pub open spec fn same_as(&self, other: &Raster) -> bool {
        self.png@ == other.png@ && self.width == other.width && self.height == other.height
            && self.id == other.id
    }

    /// An equal raster.
    pub fn duplicate(&self) -> (copy: Raster)
        ensures
            copy.same_as(self),
    {
        Raster { png: self.png.duplicate(), width: self.width, height: self.height, id: self.id }
    }
}

/// An open image or PDF.
pub struct MediaState {
    pub kind: MediaKind,
    pub source: FilePath,
    pub mtime: SystemTime,
    /// Zero-based page for PDFs; always 0 for images. This is the page the
    /// document *should* show: paging only moves this counter, and the page is
    /// rasterized off the main thread afterwards (see
    /// [`MediaState::take_raster_request`]). Holding a paging key therefore
    /// rasterizes the page it lands on rather than every page on the way.
    pub page: usize,
    pub page_count: Option<usize>,
    /// The page that `raster` holds.
    pub rastered: usize,
    /// Page a background rasterize is currently running for, if any.
    pub pending: Option<usize>,
    pub raster: Raster,
}

/// A page to rasterize off the main thread. See
/// [`MediaState::take_raster_request`].
pub struct RasterRequest {
    pub source: FilePath,
    pub mtime: SystemTime,
    pub page: usize,
}

/// Why a document cannot show a page.
#[derive(Debug, Clone, Copy, PartialEq, Eq, Structural)]
pub enum PageError {
    /// The document has no pages to turn.
    NotPaginated,
    /// The document is known to end before the (zero-based) page.
    NoSuchPage { page: usize, count: usize },
}

impl PageError {
    /// The error in words.
    pub open spec fn text(self) -> Seq<char> {
        match self {
            PageError::NotPaginated => "not a paginated document"@,
            PageError::NoSuchPage { page, count } => "no page "@ + text::decimal((page + 1) as nat)
                + " (document has "@ + text::decimal(count as nat) + ")"@,
        }
    }

    /// The error in words.
    pub fn message(&self) -> (message: String)
        requires
            self matches PageError::NoSuchPage { page, count } ==> page < usize::MAX,
        ensures
            message@ == self.text(),
    {
        let mut out: String = String::new();
        match *self {
            PageError::NotPaginated => {
                out.append("not a paginated document");
            },
            PageError::NoSuchPage { page, count } => {
                out.append("no page ");
                text::push_decimal(&mut out, (page + 1) as u64);
                out.append(" (document has ");
                text::push_decimal(&mut out, count as u64);
                out.append(")");
            },
        }
        assert(out@ =~= self.text());
        out
    }
}

impl RasterRequest {
    /// The zero-based page to rasterize.
    pub fn page(&self) -> (page: usize)
        ensures
            page == self.page,
    {
        self.page
    }

    /// Rasterizes the page with `rasterize`, which is handed the document, the
    /// time it was last changed and the page. Blocking: run this on a blocking
    /// task.
    pub fn run<E, F: FnOnce(&FilePath, SystemTime, usize) -> Result<Raster, E>>(
        &self,
        rasterize: F,
    ) -> (raster: Result<Raster, E>)
        requires
            call_requires(rasterize, (&self.source, self.mtime, self.page)),
        ensures
            call_ensures(rasterize, (&self.source, self.mtime, self.page), raster),
    {
        rasterize(&self.source, self.mtime, self.page)
    }
}

impl MediaState {
    /// An image has a single page and never waits for another.
    pub open spec fn wf(&self) -> bool {
        self.kind == MediaKind::Image ==> self.page == 0 && self.page_count is None && self.rastered
            == 0 && self.pending is None
    }

    /// Whether the raster still shows another page than the document should.
    pub open spec fn rastering(&self) -> bool {
        self.rastered != self.page
    }

    /// Whether a page is to be rasterized in the background now.
    pub open spec fn wants_raster(&self) -> bool {
        self.kind == MediaKind::Pdf && self.rastering() && self.pending is None
    }

    /// The state once the outcome of rasterizing `page` is in.
    pub open spec fn finished<E>(self, page: usize, raster: Result<Raster, E>) -> MediaState {
        let pending = if self.pending == Some(page) {
            None
        } else {
            self.pending
        };
        if page != self.page {
            MediaState { pending, ..self }
        } else {
            match raster {
                Ok(raster) => MediaState { pending, raster, rastered: page, ..self },
                Err(_) => MediaState { pending, page: self.rastered, ..self },
            }
        }
    }

    /// The outcome of rasterizing `page` as far as it concerns the document:
    /// nothing, when paging has moved on since.
    pub open spec fn verdict<E>(self, page: usize, raster: Result<Raster, E>) -> Result<(), E> {
        match raster {
            Err(err) => if page == self.page {
                Err(err)
            } else {
                Ok(())
            },
            Ok(_) => Ok(()),
        }
    }

    /// The state after turning to a page.
    pub open spec fn turned(self, page: usize) -> MediaState {
        MediaState { page, ..self }
    }

    /// What turning to a page answers.
    pub open spec fn turn_error(self, page: usize) -> Option<PageError> {
        if self.kind != MediaKind::Pdf {
            Some(PageError::NotPaginated)
        } else {
            match self.page_count {
                Some(count) => if page >= count {
                    Some(PageError::NoSuchPage { page, count })
                } else {
                    None
                },
                None => None,
            }
        }
    }

    /// A document of which the first page has been rasterized. `page_count` is
    /// what is known of a PDF; an image has no pages to count.
    pub fn open(
        kind: MediaKind,
        source: FilePath,
        mtime: SystemTime,
        raster: Raster,
        page_count: Option<usize>,
    ) -> (state: MediaState)
        ensures
            state == (MediaState {
                kind,
                source,
                mtime,
                page: 0,
                page_count: if kind == MediaKind::Image {
                    None
                } else {
                    page_count
                },
                rastered: 0,
                pending: None,
                raster,
            }),
            state.wf(),
    {
        let page_count: Option<usize> = match kind {
            MediaKind::Image => None,
            MediaKind::Pdf => page_count,
        };
        MediaState { kind, source, mtime, page: 0, page_count, rastered: 0, pending: None, raster }
    }

    /// Why the document cannot turn to a page, if it cannot.
    pub fn page_error(&self, page: usize) -> (error: Option<PageError>)
        ensures
            error == self.turn_error(page),
    {
        if self.kind != MediaKind::Pdf {
            return Some(PageError::NotPaginated);
        }
        match self.page_count {
            Some(count) => if page >= count {
                Some(PageError::NoSuchPage { page, count })
            } else {
                None
            },
            None => None,
        }
    }

    /// Switches to a zero-based page, which is rasterized lazily. Fails on a
    /// document without pages, and when the page is known not to exist.
    pub fn goto_page(&mut self, page: usize) -> (turned: Result<(), PageError>)
        ensures
            match old(self).turn_error(page) {
                Some(err) => turned == Err::<(), PageError>(err) && *final(self) == *old(self),
                None => turned == Ok::<(), PageError>(()) && *final(self) == old(self).turned(page),
            },
            old(self).wf() ==> final(self).wf(),
    {
        if let Some(error) = self.page_error(page) {
            return Err(error);
        }
        self.page = page;
        Ok(())
    }

    /// Rasterizes the current page with `rasterize` if the raster is stale,
    /// blocking until it is ready. On failure the document falls back to the
    /// page it still has a raster for, so a bad page never leaves the view
    /// blank.
    pub fn ensure_raster<E, F: FnOnce(&FilePath, SystemTime, usize) -> Result<Raster, E>>(
        &mut self,
        rasterize: F,
    ) -> (shown: Result<(), E>)
        requires
            old(self).rastering() ==> call_requires(
                rasterize,
                (&old(self).source, old(self).mtime, old(self).page),
            ),
        ensures
            !old(self).rastering() ==> shown is Ok && *final(self) == *old(self),
            old(self).rastering() ==> exists|raster: Result<Raster, E>|
                {
                    &&& #[trigger] call_ensures(
                        rasterize,
                        (&old(self).source, old(self).mtime, old(self).page),
                        raster,
                    )
                    &&& *final(self) == old(self).finished(old(self).page, raster)
                    &&& shown == old(self).verdict(old(self).page, raster)
                },
            !final(self).rastering(),
    {
        if self.rastered == self.page {
            return Ok(());
        }
        let raster: Result<Raster, E> = rasterize(&self.source, self.mtime, self.page);
        self.finish_raster(self.page, raster)
    }

    /// Whether the raster still shows an earlier page than the document
    /// should, i.e. a rasterize is outstanding.
    pub fn is_rastering(&self) -> (yes: bool)
        ensures
            yes == self.rastering(),
    {
        self.rastered != self.page
    }

    /// Whether a page is to be rasterized in the background now.
    pub fn needs_raster(&self) -> (yes: bool)
        ensures
            yes == self.wants_raster(),
    {
        self.kind == MediaKind::Pdf && self.rastered != self.page && self.pending.is_none()
    }

    /// The page to rasterize in the background, or `None` when the raster is
    /// up to date or a rasterize is already running. Only one runs at a time:
    /// pages that go by before their turn are never rendered at all, and the
    /// one landed on is picked up on the next frame.
    pub fn take_raster_request(&mut self) -> (request: Option<RasterRequest>)
        ensures
            request is Some <==> old(self).wants_raster(),
            match request {
                Some(r) => {
                    &&& r.source@ == old(self).source@
                    &&& r.mtime == old(self).mtime
                    &&& r.page == old(self).page
                    &&& *final(self) == (MediaState {
                        pending: Some(old(self).page),
                        ..*old(self)
                    })
                },
                None => *final(self) == *old(self),
            },
            old(self).wf() ==> final(self).wf(),
    {
        if !self.needs_raster() {
            return None;
        }
        self.pending = Some(self.page);
        Some(RasterRequest { source: self.source.duplicate(), mtime: self.mtime, page: self.page })
    }

    /// Installs the result of a rasterize, or discards it if paging has moved
    /// on since it started.
    pub fn finish_raster<E>(&mut self, page: usize, raster: Result<Raster, E>) -> (shown: Result<(), E>)
        ensures
            *final(self) == old(self).finished(page, raster),
            shown == old(self).verdict(page, raster),
            old(self).wf() ==> final(self).wf(),
    {
        if let Some(running) = self.pending {
            if running == page {
                self.pending = None;
            }
        }
        if page != self.page {
            return Ok(());
        }
        match raster {
            Ok(raster) => {
                self.raster = raster;
                self.rastered = page;
                Ok(())
            },
            Err(err) => {
                self.page = self.rastered;
                Err(err)
            },
        }
    }
}

/// A result for a page that has been left since is dropped: it is not shown,
/// and no failure is reported.
pub proof fn law_late_results_are_dropped<E>(state: MediaState, page: usize, raster: Result<Raster, E>)
    requires
        page != state.page,
    ensures
        state.finished(page, raster).raster == state.raster,
        state.finished(page, raster).rastered == state.rastered,
        state.finished(page, raster).page == state.page,
        state.verdict(page, raster) is Ok,
{
}

/// A page that cannot be rendered never leaves the view blank: the document
/// falls back to the page that it still has a raster for.
pub proof fn law_a_bad_page_falls_back<E>(state: MediaState, error: E)
    ensures
        ({
            let after = state.finished(state.page, Err::<Raster, E>(error));
            &&& after.page == state.rastered
            &&& after.raster == state.raster
            &&& !after.rastering()
            &&& state.verdict(state.page, Err::<Raster, E>(error)) == Err::<(), E>(error)
        }),
{
}

/// The raster of the page that is asked for is shown.
pub proof fn law_the_page_asked_for_is_shown<E>(state: MediaState, raster: Raster)
    ensures
        ({
            let after = state.finished(state.page, Ok::<Raster, E>(raster));
            &&& after.page == state.page
            &&& after.raster == raster
            &&& !after.rastering()
        }),
{
}

/// Only one rasterize runs at a time, whatever pages go by meanwhile; once its
/// result is in, the page landed on is rasterized next, and no other.
pub proof fn law_only_the_page_landed_on_is_rasterized<E>(
    state: MediaState,
    started: usize,
    landed: usize,
    raster: Result<Raster, E>,
)
    requires
        state.kind == MediaKind::Pdf,
        state.pending == Some(started),
        landed != started,
    ensures
        !state.turned(landed).wants_raster(),
        state.turned(landed).finished(started, raster).page == landed,
        state.turned(landed).finished(started, raster).wants_raster() <==> landed != state.rastered,
{
}

/// An image stays on its only page: it cannot be turned, and never waits for
/// another raster.
pub proof fn law_images_have_one_page(state: MediaState, page: usize)
    requires
        state.kind == MediaKind::Image,
        state.wf(),
    ensures
        state.turn_error(page) == Some(PageError::NotPaginated),
        !state.wants_raster(),
        !state.rastering(),
{
}

/// The extensions that media are known by: each stands for an image but that of
/// a PDF, and no other stands for media.
pub proof fn law_media_are_known_by_their_extension(ext: Seq<char>)
    ensures
        kind_of(ext) == Some(MediaKind::Pdf) <==> ext == "pdf"@,
        kind_of(ext) is Some <==> ext == "pdf"@ || ext == "png"@ || ext == "jpg"@ || ext == "jpeg"@
            || ext == "gif"@ || ext == "bmp"@ || ext == "webp"@ || ext == "tif"@ || ext == "tiff"@
            || ext == "ico"@ || ext == "heic"@ || ext == "heif"@ || ext == "avif"@ || ext == "svg"@,
{
}

/// A file without an extension, or with one that is no text, is not media; any
/// other goes by its extension in lower case.
pub proof fn law_only_named_extensions_count(p: Seq<u8>)
    ensures
        path::extension_of(p) is None ==> detected(p) is None,
        path::extension_of(p) matches Some(ext) ==> (!valid_utf8(ext) ==> detected(p) is None),
        path::extension_of(p) matches Some(ext) ==> (valid_utf8(ext) ==> detected(p) == kind_of(
            text::lowercase(decode_utf8(ext)),
        )),
{
}

/// Rasterizing a page ends the wait for that page, and for no other; nothing
/// else about the document changes but what is shown.
pub proof fn law_a_result_ends_its_own_wait<E>(
    state: MediaState,
    page: usize,
    raster: Result<Raster, E>,
)
    ensures
        ({
            let after = state.finished(page, raster);
            &&& state.pending == Some(page) ==> after.pending is None
            &&& state.pending != Some(page) ==> after.pending == state.pending
            &&& after.kind == state.kind && after.source == state.source && after.mtime
                == state.mtime && after.page_count == state.page_count
            &&& raster is Ok ==> state.verdict(page, raster) is Ok
        }),
{
}

/// A page is due to be rasterized exactly if the document is a PDF on another
/// page than its raster, and nothing runs for it.
pub proof fn law_stale_pages_are_due(state: MediaState)
    ensures
        state.rastering() <==> state.rastered != state.page,
        state.wants_raster() <==> state.kind == MediaKind::Pdf && state.rastered != state.page
            && state.pending is None,
{
}

/// A document turns to any page but those past its known end, and only a PDF
/// does; turning changes the page and nothing else.
pub proof fn law_pages_can_be_turned_to(state: MediaState, page: usize)
    ensures
        state.turn_error(page) is None <==> state.kind == MediaKind::Pdf && (state.page_count
            matches Some(count) ==> page < count),
        state.kind == MediaKind::Pdf && state.turn_error(page) is Some ==> state.turn_error(page)
            == Some(PageError::NoSuchPage { page, count: state.page_count.unwrap() }),
        state.turned(page).page == page,
        state.turned(page) == (MediaState { page: state.turned(page).page, ..state }),
{
}

/// Pages are counted from one in what is said of them.
pub proof fn law_page_errors_count_from_one(page: usize, count: usize)
    ensures
        (PageError::NoSuchPage { page, count }).text() == "no page "@ + text::decimal(
            (page + 1) as nat,
        ) + " (document has "@ + text::decimal(count as nat) + ")"@,
        PageError::NotPaginated.text() == "not a paginated document"@,
{
}

/// Rasters are the same picture if nothing tells them apart.
pub proof fn law_rasters_are_told_apart(a: Raster, b: Raster)
    ensures
        a.same_as(&b) ==> a.png@ == b.png@,
        a.same_as(&b) ==> a.width == b.width && a.height == b.height,
        a.same_as(&b) ==> a.id == b.id,
        a.png@ == b.png@ && a.width == b.width && a.height == b.height && a.id == b.id
            ==> a.same_as(&b),
{
}

} // verus!
