//! What the preview pane shows for a picker's selection, and where.
use vstd::prelude::*;
use vstd::string::*;
use crate::graphics::{GraphicsMode, GraphicsState};
use crate::media;
use crate::media::{MediaKind, MediaState};
use crate::path;
use crate::path::FilePath;
use crate::text;

verus! {

/// Biggest file size to preview in bytes.
pub const MAX_FILE_SIZE_FOR_PREVIEW: u64 = 10485760;

/// Names an open document.
#[derive(Debug, Clone, Copy, PartialEq, Eq, Structural)]
pub struct DocumentId {
    pub id: usize,
}

/// What a preview reads of a document.
pub struct Document {
    pub id: DocumentId,
    pub path: Option<FilePath>,
    /// The image or PDF that the document shows in place of text.
    pub media: Option<MediaState>,
    /// The number of lines of its text.
    pub line_count: usize,
    /// Whether it is known what language it is written in.
    pub has_language: bool,
    /// Whether its syntax has been highlighted.
    pub highlighted: bool,
}

/// What the picker reads and changes of the editor that it is opened in.
pub struct Editor {
    pub documents: Vec<Document>,
    pub graphics: GraphicsState,
    /// Whether pickers are modal.
    pub modal: bool,
    /// How many lines a line-wise scroll moves by.
    pub scroll_lines: isize,
    /// The error shown in the status line.
    pub error: Option<String>,
}

/// What a picker item refers to: a file, or a document that is open.
pub enum PathOrId<'a> {
    Id(DocumentId),
    Path(&'a FilePath),
}

impl<'a> From<&'a FilePath> for PathOrId<'a> {
    fn from(path: &'a FilePath) -> (location: Self) {
        PathOrId::Path(path)
    }
}

impl<'a> vstd::std_specs::convert::FromSpecImpl<&'a FilePath> for PathOrId<'a> {
    open spec fn obeys_from_spec() -> bool {
        true
    }

    open spec fn from_spec(path: &'a FilePath) -> Self {
        PathOrId::Path(path)
    }
}

impl From<DocumentId> for PathOrId<'_> {
    fn from(id: DocumentId) -> (location: Self) {
        PathOrId::Id(id)
    }
}

impl vstd::std_specs::convert::FromSpecImpl<DocumentId> for PathOrId<'_> {
    open spec fn obeys_from_spec() -> bool {
        true
    }

    open spec fn from_spec(id: DocumentId) -> Self {
        PathOrId::Id(id)
    }
}

/// File path and range of lines (used to align and highlight lines).
pub type FileLocation<'a> = (PathOrId<'a>, Option<(usize, usize)>);

/// An image or the first page of a PDF. Rasterizing runs off the main thread,
/// so the preview starts out pending and is filled in later.
pub enum MediaPreview {
    /// Not rasterized yet. `started` guards against kicking off a second
    /// rasterize for a page that is already being worked on.
    Rendering { kind: MediaKind, started: bool },
    Ready(Box<MediaState>),
    /// Rasterizing failed, or the terminal cannot display images: the reason,
    /// shown in place of the preview.
    Unavailable(String),
}

/// The preview of a file that is not open in the editor.
pub enum CachedPreview {
    Document(Box<Document>),
    Directory(Vec<(String, bool)>),
    /// An image or PDF, rendered graphically rather than as text.
    Media(MediaPreview),
    Binary,
    LargeFile,
    NotFound,
}

/// What there is to show.
pub enum Preview<'picker, 'editor> {
    Cached(&'picker CachedPreview),
    EditorDocument(&'editor Document),
}

impl<'picker, 'editor> Preview<'picker, 'editor> {
    /// The document to show as text, if there is one.
    pub open spec fn document_shown(&self) -> Option<Document> {
        match self {
            Preview::EditorDocument(doc) => Some(**doc),
            Preview::Cached(CachedPreview::Document(doc)) => Some(**doc),
            _ => None,
        }
    }

    /// The document to show as text, if there is one.
    pub fn document(&self) -> (doc: Option<&Document>)
        ensures
            match doc {
                Some(d) => self.document_shown() == Some(*d),
                None => self.document_shown() is None,
            },
    {
        match self {
            Preview::EditorDocument(doc) => Some(doc),
            Preview::Cached(cached) => match cached {
                CachedPreview::Document(doc) => Some(doc),
                _ => None,
            },
        }
    }

    /// The listing to show, if this is a directory.
    pub fn dir_content(&self) -> (listing: Option<&Vec<(String, bool)>>)
        ensures
            match listing {
                Some(l) => *self matches Preview::Cached(CachedPreview::Directory(d)) && d == *l,
                None => !(*self matches Preview::Cached(CachedPreview::Directory(_))),
            },
    {
        match self {
            Preview::Cached(cached) => match cached {
                CachedPreview::Directory(listing) => Some(listing),
                _ => None,
            },
            _ => None,
        }
    }

    /// The rasterized image or PDF page to draw, if this preview is one.
    pub open spec fn media_shown(&self) -> Option<MediaState> {
        match self {
            Preview::EditorDocument(doc) => doc.media,
            Preview::Cached(CachedPreview::Media(MediaPreview::Ready(media))) => Some(**media),
            _ => None,
        }
    }

    /// The rasterized image or PDF page to draw, if this preview is one. Media
    /// files already open in the editor keep their state on the document, so
    /// the picker draws whichever page the document is on.
    pub fn media(&self) -> (media: Option<&MediaState>)
        ensures
            match media {
                Some(m) => self.media_shown() == Some(*m),
                None => self.media_shown() is None,
            },
    {
        match self {
            Preview::EditorDocument(doc) => doc.media.as_ref(),
            Preview::Cached(cached) => match cached {
                CachedPreview::Media(MediaPreview::Ready(media)) => Some(media),
                _ => None,
            },
        }
    }

    /// Alternate text to show for the preview.
    pub open spec fn alternate(&self) -> Seq<char> {
        match self {
            Preview::EditorDocument(_) => "<Invalid file location>"@,
            Preview::Cached(cached) => match cached {
                CachedPreview::Document(_) => "<Invalid file location>"@,
                CachedPreview::Directory(_) => "<Invalid directory location>"@,
                CachedPreview::Media(MediaPreview::Rendering { kind, .. }) => match kind {
                    MediaKind::Pdf => "<Rendering PDF\u{2026}>"@,
                    MediaKind::Image => "<Rendering image\u{2026}>"@,
                },
                CachedPreview::Media(MediaPreview::Ready(_)) => "<Invalid file location>"@,
                CachedPreview::Media(MediaPreview::Unavailable(reason)) => reason@,
                CachedPreview::Binary => "<Binary file>"@,
                CachedPreview::LargeFile => "<File too large to preview>"@,
                CachedPreview::NotFound => "<File not found>"@,
            },
        }
    }

    /// Alternate text to show for the preview.
    pub fn placeholder(&self) -> (text: &str)
        ensures
            text@ == self.alternate(),
    {
        match self {
            Preview::EditorDocument(_) => "<Invalid file location>",
            Preview::Cached(cached) => match cached {
                CachedPreview::Document(_) => "<Invalid file location>",
                CachedPreview::Directory(_) => "<Invalid directory location>",
                CachedPreview::Media(MediaPreview::Rendering { kind, .. }) => match kind {
                    MediaKind::Pdf => "<Rendering PDF\u{2026}>",
                    MediaKind::Image => "<Rendering image\u{2026}>",
                },
                CachedPreview::Media(MediaPreview::Ready(_)) => "<Invalid file location>",
                CachedPreview::Media(MediaPreview::Unavailable(reason)) => reason.as_str(),
                CachedPreview::Binary => "<Binary file>",
                CachedPreview::LargeFile => "<File too large to preview>",
                CachedPreview::NotFound => "<File not found>",
            },
        }
    }
}

impl Document {
    /// Whether the document shows the file at a path.
    pub open spec fn shows(&self, p: Seq<u8>) -> bool {
        match self.path {
            Some(own) => path::same_path(own@, p),
            None => false,
        }
    }
}

/// The first document, from index `from` on, that shows the file at a path.
pub open spec fn document_at_path(documents: Seq<Document>, p: Seq<u8>, from: int) -> Option<int>
    decreases documents.len() - from,
{
    if from < 0 || from >= documents.len() {
        None
    } else if documents[from].shows(p) {
        Some(from)
    } else {
        document_at_path(documents, p, from + 1)
    }
}

/// The first document, from index `from` on, of the given name.
pub open spec fn document_with_id(documents: Seq<Document>, id: DocumentId, from: int) -> Option<int>
    decreases documents.len() - from,
{
    if from < 0 || from >= documents.len() {
        None
    } else if documents[from].id == id {
        Some(from)
    } else {
        document_with_id(documents, id, from + 1)
    }
}

impl Editor {
    /// The index of the document that shows the file at a path.
    pub fn document_by_path(&self, p: &FilePath) -> (index: Option<usize>)
        ensures
            match index {
                Some(i) => document_at_path(self.documents@, p@, 0) == Some(i as int) && i
                    < self.documents@.len(),
                None => document_at_path(self.documents@, p@, 0) is None,
            },
    {
        let mut i: usize = 0;
        while i < self.documents.len()
            invariant
                i <= self.documents@.len(),
                document_at_path(self.documents@, p@, 0) == document_at_path(
                    self.documents@,
                    p@,
                    i as int,
                ),
            decreases self.documents@.len() - i,
        {
            let shown: bool = match &self.documents[i].path {
                Some(own) => own.same(p),
                None => false,
            };
            if shown {
                return Some(i);
            }
            i += 1;
        }
        None
    }

    /// The index of the document of the given name.
    pub fn document_by_id(&self, id: DocumentId) -> (index: Option<usize>)
        ensures
            match index {
                Some(i) => document_with_id(self.documents@, id, 0) == Some(i as int) && i
                    < self.documents@.len(),
                None => document_with_id(self.documents@, id, 0) is None,
            },
    {
        let mut i: usize = 0;
        while i < self.documents.len()
            invariant
                i <= self.documents@.len(),
                document_with_id(self.documents@, id, 0) == document_with_id(
                    self.documents@,
                    id,
                    i as int,
                ),
            decreases self.documents@.len() - i,
        {
            if self.documents[i].id == id {
                return Some(i);
            }
            i += 1;
        }
        None
    }
}

/// The previews that have been made, each under the path of its file.
pub struct PreviewCache {
    pub entries: Vec<(FilePath, CachedPreview)>,
}

/// The first entry, from index `from` on, for the file at a path.
pub open spec fn entry_for(
    entries: Seq<(FilePath, CachedPreview)>,
    p: Seq<u8>,
    from: int,
) -> Option<int>
    decreases entries.len() - from,
{
    if from < 0 || from >= entries.len() {
        None
    } else if path::same_path(entries[from].0@, p) {
        Some(from)
    } else {
        entry_for(entries, p, from + 1)
    }
}

impl PreviewCache {
    /// No two entries are for the same file.
    pub open spec fn wf(&self) -> bool {
        forall|i: int, j: int|
            0 <= i < j < self.entries@.len() ==> !path::same_path(
                (#[trigger] self.entries@[i]).0@,
                (#[trigger] self.entries@[j]).0@,
            )
    }

    /// A cache without entries.
    pub fn new() -> (cache: PreviewCache)
        ensures
            cache.entries@.len() == 0,
            cache.wf(),
    {
        PreviewCache { entries: Vec::new() }
    }

    /// The entry for the file at a path.
    pub fn find(&self, p: &FilePath) -> (index: Option<usize>)
        ensures
            match index {
                Some(i) => entry_for(self.entries@, p@, 0) == Some(i as int) && i
                    < self.entries@.len(),
                None => entry_for(self.entries@, p@, 0) is None,
            },
    {
        let mut i: usize = 0;
        while i < self.entries.len()
            invariant
                i <= self.entries@.len(),
                entry_for(self.entries@, p@, 0) == entry_for(self.entries@, p@, i as int),
            decreases self.entries@.len() - i,
        {
            if self.entries[i].0.same(p) {
                return Some(i);
            }
            i += 1;
        }
        None
    }

    /// Keeps a preview for the file at a path, in place of the one there is.
    pub fn insert(&mut self, p: FilePath, preview: CachedPreview) -> (index: usize)
        requires
            old(self).wf(),
        ensures
            final(self).wf(),
            match entry_for(old(self).entries@, p@, 0) {
                Some(i) => index == i && final(self).entries@ == old(self).entries@.update(
                    i,
                    (old(self).entries@[i].0, preview),
                ),
                None => index == old(self).entries@.len() && final(self).entries@
                    == old(self).entries@.push((p, preview)),
            },
            entry_for(final(self).entries@, p@, 0) == Some(index as int),
            final(self).entries@[index as int].1 == preview,
    {
        let ghost before = self.entries@;
        match self.find(&p) {
            Some(i) => {
                self.entries[i].1 = preview;
                assert(self.entries@ =~= before.update(i as int, (before[i as int].0, preview)));
                proof {
                    lemma_found_entry(before, p@, 0);
                    lemma_first_entry(self.entries@, p@, 0, i as int);
                }
                i
            },
            None => {
                proof {
                    lemma_no_entry(self.entries@, p@, 0);
                }
                self.entries.push((p, preview));
                proof {
                    lemma_first_entry(self.entries@, p@, 0, before.len() as int);
                }
                self.entries.len() - 1
            },
        }
    }
}

/// What the file system says of a path.
#[derive(Debug, Clone, Copy, PartialEq, Eq, Structural)]
pub struct FileMeta {
    pub is_dir: bool,
    pub is_file: bool,
    pub len: u64,
}

/// How the preview of a file is come by.
pub enum Probe {
    /// There is nothing more to look at.
    Made(CachedPreview),
    /// By listing the directory; see [`preview_of_listing`].
    List,
    /// By the first bytes of the file; see [`preview_of_head`].
    ReadHead,
}

/// Whether a preview is one of an image or PDF that is still to be rasterized,
/// of the given kind, with nothing started.
pub open spec fn waits_for_raster(preview: CachedPreview, kind: MediaKind) -> bool {
    preview matches CachedPreview::Media(MediaPreview::Rendering { kind: k, started }) && k == kind
        && !started
}

/// Whether a preview says only that images cannot be shown.
pub open spec fn lacks_graphics(preview: CachedPreview) -> bool {
    preview matches CachedPreview::Media(MediaPreview::Unavailable(reason)) && reason@
        == "<No image support in this terminal>"@
}

/// How the preview of the file at a path is come by. `meta` is what the file
/// system says of it, if it says anything. Images and PDFs are rendered
/// graphically instead of being read as text, so the size cap (which is about
/// loading a file as text) does not apply to them.
pub fn probe_file(path: &FilePath, meta: Option<FileMeta>, mode: GraphicsMode) -> (probe: Probe)
    ensures
        match meta {
            None => probe == Probe::Made(CachedPreview::NotFound),
            Some(m) => if m.is_dir {
                probe == Probe::List
            } else if !m.is_file {
                probe == Probe::Made(CachedPreview::NotFound)
            } else {
                match media::detected(path@) {
                    Some(kind) => probe matches Probe::Made(preview) && if mode
                        == GraphicsMode::Off {
                        lacks_graphics(preview)
                    } else {
                        waits_for_raster(preview, kind)
                    },
                    None => if m.len > MAX_FILE_SIZE_FOR_PREVIEW {
                        probe == Probe::Made(CachedPreview::LargeFile)
                    } else {
                        probe == Probe::ReadHead
                    },
                }
            },
        },
{
    match meta {
        None => Probe::Made(CachedPreview::NotFound),
        Some(m) => {
            if m.is_dir {
                return Probe::List;
            }
            if !m.is_file {
                return Probe::Made(CachedPreview::NotFound);
            }
            if let Some(kind) = media::detect_kind(path) {
                return Probe::Made(
                    CachedPreview::Media(
                        match mode {
                            GraphicsMode::Off => {
                                let mut reason: String = String::new();
                                reason.append("<No image support in this terminal>");
                                assert(reason@ =~= "<No image support in this terminal>"@);
                                MediaPreview::Unavailable(reason)
                            },
                            GraphicsMode::Kitty => MediaPreview::Rendering { kind, started: false },
                        },
                    ),
                );
            }
            if m.len > MAX_FILE_SIZE_FOR_PREVIEW {
                Probe::Made(CachedPreview::LargeFile)
            } else {
                Probe::ReadHead
            }
        },
    }
}

/// The preview that the first bytes of a file decide on: whether they look
/// binary, or nothing if they cannot be read. `None` is a file that is to be
/// opened as a document; see [`preview_of_document`].
pub fn preview_of_head(binary: Option<bool>) -> (preview: Option<CachedPreview>)
    ensures
        preview == (match binary {
            None => Some(CachedPreview::NotFound),
            Some(true) => Some(CachedPreview::Binary),
            Some(false) => None,
        }),
{
    match binary {
        None => Some(CachedPreview::NotFound),
        Some(is_binary) => if is_binary {
            Some(CachedPreview::Binary)
        } else {
            None
        },
    }
}

/// The preview of a file that was opened as a document, or could not be.
pub fn preview_of_document(opened: Option<Document>) -> (preview: CachedPreview)
    ensures
        match opened {
            Some(doc) => preview matches CachedPreview::Document(d) && *d == doc,
            None => preview == CachedPreview::NotFound,
        },
{
    match opened {
        Some(doc) => CachedPreview::Document(Box::new(doc)),
        None => CachedPreview::NotFound,
    }
}

/// The name under which a directory lists a file: its path below the
/// directory, or else its last component. A directory's name ends in `/`. A
/// file without a name is not listed.
pub open spec fn listed_name(dir: Seq<u8>, file: Seq<u8>, is_dir: bool) -> Option<Seq<char>> {
    let name = match path::stripped(file, dir) {
        Some(rest) => Some(rest),
        None => path::file_name_of(file),
    };
    match name {
        Some(n) => Some(
            if is_dir {
                text::lossy_text(n) + "/"@
            } else {
                text::lossy_text(n)
            },
        ),
        None => None,
    }
}

/// The listing of a directory: name, and whether it is a directory itself.
pub open spec fn listed(dir: Seq<u8>, files: Seq<(FilePath, bool)>) -> Seq<(Seq<char>, bool)>
    decreases files.len(),
{
    if files.len() == 0 {
        Seq::empty()
    } else {
        let before = listed(dir, files.drop_last());
        let (file, is_dir) = files.last();
        match listed_name(dir, file@, is_dir) {
            Some(name) => before.push((name, is_dir)),
            None => before,
        }
    }
}

/// The model of a listing.
pub open spec fn listing_view(listing: Seq<(String, bool)>) -> Seq<(Seq<char>, bool)> {
    listing.map_values(|entry: (String, bool)| (entry.0@, entry.1))
}

/// The preview of a directory with the given contents, or of one that cannot
/// be listed.
pub fn preview_of_listing(dir: &FilePath, files: Option<Vec<(FilePath, bool)>>) -> (preview:
    CachedPreview)
    ensures
        match files {
            Some(f) => preview matches CachedPreview::Directory(listing) && listing_view(listing@)
                == listed(dir@, f@),
            None => preview == CachedPreview::NotFound,
        },
{
    match files {
        None => CachedPreview::NotFound,
        Some(files) => {
            let mut listing: Vec<(String, bool)> = Vec::new();
            let mut i: usize = 0;
            assert(files@.take(0) =~= Seq::<(FilePath, bool)>::empty());
            assert(listing_view(listing@) =~= listed(dir@, files@.take(0)));
            while i < files.len()
                invariant
                    i <= files@.len(),
                    listing_view(listing@) == listed(dir@, files@.take(i as int)),
                decreases files@.len() - i,
            {
                assert(files@.take(i + 1).drop_last() =~= files@.take(i as int));
                let file: &FilePath = &files[i].0;
                let is_dir: bool = files[i].1;
                let name: Option<Vec<u8>> = match file.strip_prefix(dir) {
                    Some(rest) => Some(rest.bytes),
                    None => file.file_name(),
                };
                let ghost before = listing@;
                if let Some(bytes) = name {
                    let mut shown: String = text::to_lossy(bytes.as_slice());
                    if is_dir {
                        shown.append("/");
                    }
                    listing.push((shown, is_dir));
                    assert(listing_view(listing@) =~= listing_view(before).push(
                        (shown@, is_dir),
                    ));
                }
                i += 1;
            }
            assert(files@.take(files@.len() as int) =~= files@);
            CachedPreview::Directory(listing)
        },
    }
}

/// A listing holds no more entries than the directory does.
pub proof fn law_listing_adds_nothing(dir: Seq<u8>, files: Seq<(FilePath, bool)>)
    ensures
        listed(dir, files).len() <= files.len(),
        forall|i: int|
            0 <= i < listed(dir, files).len() ==> exists|j: int|
                0 <= j < files.len() && listed_name(dir, (#[trigger] files[j]).0@, files[j].1) == Some(
                    (#[trigger] listed(dir, files)[i]).0,
                ),
    decreases files.len(),
{
    if files.len() > 0 {
        law_listing_adds_nothing(dir, files.drop_last());
        let before = listed(dir, files.drop_last());
        assert forall|i: int| 0 <= i < listed(dir, files).len() implies exists|j: int|
            0 <= j < files.len() && listed_name(dir, (#[trigger] files[j]).0@, files[j].1) == Some(
                (#[trigger] listed(dir, files)[i]).0,
            ) by {
            if i < before.len() {
                assert(listed(dir, files)[i] == before[i]);
                let j = choose|j: int|
                    0 <= j < files.drop_last().len() && listed_name(
                        dir,
                        (#[trigger] files.drop_last()[j]).0@,
                        files.drop_last()[j].1,
                    ) == Some(before[i].0);
                assert(files[j] == files.drop_last()[j]);
            } else {
                assert(files[files.len() - 1] == files.last());
            }
        }
    }
}

/// An entry that is found is for that file, and the first that is.
proof fn lemma_found_entry(entries: Seq<(FilePath, CachedPreview)>, p: Seq<u8>, from: int)
    requires
        0 <= from,
        entry_for(entries, p, from) is Some,
    ensures
        ({
            let i = entry_for(entries, p, from).unwrap();
            &&& from <= i < entries.len()
            &&& path::same_path(entries[i].0@, p)
            &&& forall|j: int| from <= j < i ==> !path::same_path((#[trigger] entries[j]).0@, p)
        }),
    decreases entries.len() - from,
{
    if from < entries.len() && !path::same_path(entries[from].0@, p) {
        lemma_found_entry(entries, p, from + 1);
    }
}

/// The first entry that is for a file is found.
proof fn lemma_first_entry(entries: Seq<(FilePath, CachedPreview)>, p: Seq<u8>, from: int, i: int)
    requires
        0 <= from <= i < entries.len(),
        path::same_path(entries[i].0@, p),
        forall|j: int| from <= j < i ==> !path::same_path((#[trigger] entries[j]).0@, p),
    ensures
        entry_for(entries, p, from) == Some(i),
    decreases i - from,
{
    if from < i {
        lemma_first_entry(entries, p, from + 1, i);
    }
}

/// Where no entry is found, none is for that file.
proof fn lemma_no_entry(entries: Seq<(FilePath, CachedPreview)>, p: Seq<u8>, from: int)
    requires
        0 <= from,
        entry_for(entries, p, from) is None,
    ensures
        forall|i: int| from <= i < entries.len() ==> !path::same_path((#[trigger] entries[i]).0@, p),
    decreases entries.len() - from,
{
    if from < entries.len() {
        lemma_no_entry(entries, p, from + 1);
    }
}

/// A document is found by its path exactly if one shows that file, and then it
/// is the first that does.
pub proof fn law_documents_are_found_by_path(documents: Seq<Document>, p: Seq<u8>)
    ensures
        match document_at_path(documents, p, 0) {
            Some(i) => 0 <= i < documents.len() && documents[i].shows(p) && forall|j: int|
                0 <= j < i ==> !(#[trigger] documents[j]).shows(p),
            None => forall|j: int| 0 <= j < documents.len() ==> !(#[trigger] documents[j]).shows(p),
        },
{
    lemma_document_at_path(documents, p, 0);
}

proof fn lemma_document_at_path(documents: Seq<Document>, p: Seq<u8>, from: int)
    requires
        0 <= from <= documents.len(),
    ensures
        match document_at_path(documents, p, from) {
            Some(i) => from <= i < documents.len() && documents[i].shows(p) && forall|j: int|
                from <= j < i ==> !(#[trigger] documents[j]).shows(p),
            None => forall|j: int|
                from <= j < documents.len() ==> !(#[trigger] documents[j]).shows(p),
        },
    decreases documents.len() - from,
{
    if from < documents.len() && !documents[from].shows(p) {
        lemma_document_at_path(documents, p, from + 1);
    }
}

/// A document is found by its name exactly if there is one of that name, and
/// then it is the first.
pub proof fn law_documents_are_found_by_name(documents: Seq<Document>, id: DocumentId)
    ensures
        match document_with_id(documents, id, 0) {
            Some(i) => 0 <= i < documents.len() && documents[i].id == id && forall|j: int|
                0 <= j < i ==> (#[trigger] documents[j]).id != id,
            None => forall|j: int| 0 <= j < documents.len() ==> (#[trigger] documents[j]).id != id,
        },
{
    lemma_document_with_id(documents, id, 0);
}

proof fn lemma_document_with_id(documents: Seq<Document>, id: DocumentId, from: int)
    requires
        0 <= from <= documents.len(),
    ensures
        match document_with_id(documents, id, from) {
            Some(i) => from <= i < documents.len() && documents[i].id == id && forall|j: int|
                from <= j < i ==> (#[trigger] documents[j]).id != id,
            None => forall|j: int|
                from <= j < documents.len() ==> (#[trigger] documents[j]).id != id,
        },
    decreases documents.len() - from,
{
    if from < documents.len() && documents[from].id != id {
        lemma_document_with_id(documents, id, from + 1);
    }
}

/// An entry of the cache is found exactly if one is for that file, and then it
/// is the first that is.
pub proof fn law_entries_are_found_by_path(entries: Seq<(FilePath, CachedPreview)>, p: Seq<u8>)
    ensures
        match entry_for(entries, p, 0) {
            Some(i) => 0 <= i < entries.len() && path::same_path(entries[i].0@, p) && forall|j: int|
                0 <= j < i ==> !path::same_path((#[trigger] entries[j]).0@, p),
            None => forall|j: int|
                0 <= j < entries.len() ==> !path::same_path((#[trigger] entries[j]).0@, p),
        },
{
    if entry_for(entries, p, 0) is Some {
        lemma_found_entry(entries, p, 0);
    } else {
        lemma_no_entry(entries, p, 0);
    }
}

/// A document shows the file at a path if that is its own path; one without a
/// path shows no file.
pub proof fn law_documents_show_their_own_file(doc: Document, p: Seq<u8>)
    ensures
        doc.path is None ==> !doc.shows(p),
        doc.path matches Some(own) ==> (own@ == p ==> doc.shows(p)),
        doc.path matches Some(own) ==> (doc.shows(p) ==> path::names(own@) == path::names(p)
            && path::absolute(own@) == path::absolute(p)),
{
}

/// A directory lists its entries by name, with a slash behind a directory.
pub proof fn law_listings_show_names(dir: Seq<u8>, name: Seq<u8>)
    requires
        name.len() > 0,
        !name.contains(47u8),
        name != seq![46u8],
        name != seq![46u8, 46u8],
    ensures
        listed_name(dir, path::joined(dir, name), false) == Some(text::lossy_text(name)),
        listed_name(dir, path::joined(dir, name), true) == Some(text::lossy_text(name) + seq!['/']),
{
    path::law_entries_lie_in_their_directory(dir, name);
    reveal_strlit("/");
    assert("/"@ =~= seq!['/']);
}

/// What does not lie below the directory is listed by its last component, and
/// not at all if it has no name.
pub proof fn law_strangers_are_listed_by_their_name(dir: Seq<u8>, file: Seq<u8>)
    requires
        path::stripped(file, dir) is None,
    ensures
        match path::file_name_of(file) {
            Some(name) => listed_name(dir, file, false) == Some(text::lossy_text(name))
                && listed_name(dir, file, true) == Some(text::lossy_text(name) + "/"@),
            None => listed_name(dir, file, false) is None && listed_name(dir, file, true) is None,
        },
{
}

/// A listing keeps the order of the entries, and leaves out only those without
/// a name: an entry more is a row more at the end.
pub proof fn law_listings_keep_the_order(
    dir: Seq<u8>,
    files: Seq<(FilePath, bool)>,
    file: FilePath,
    is_dir: bool,
)
    ensures
        listed(dir, Seq::<(FilePath, bool)>::empty()).len() == 0,
        match listed_name(dir, file@, is_dir) {
            Some(name) => listed(dir, files.push((file, is_dir))) == listed(dir, files).push(
                (name, is_dir),
            ),
            None => listed(dir, files.push((file, is_dir))) == listed(dir, files),
        },
{
    assert(files.push((file, is_dir)).drop_last() =~= files);
}

/// What a preview shows as text, as a picture or as a line in their place.
pub proof fn law_previews_show_what_they_hold(
    doc: Document,
    media: MediaState,
    kind: MediaKind,
    started: bool,
    listing: Vec<(String, bool)>,
)
    ensures
        Preview::EditorDocument(&doc).document_shown() == Some(doc),
        Preview::EditorDocument(&doc).media_shown() == doc.media,
        Preview::Cached(&CachedPreview::Document(Box::new(doc))).document_shown() == Some(doc),
        Preview::Cached(&CachedPreview::Document(Box::new(doc))).media_shown() is None,
        Preview::Cached(
            &CachedPreview::Media(MediaPreview::Ready(Box::new(media))),
        ).media_shown() == Some(media),
        Preview::Cached(
            &CachedPreview::Media(MediaPreview::Ready(Box::new(media))),
        ).document_shown() is None,
        Preview::Cached(&CachedPreview::Binary).alternate() == "<Binary file>"@,
        Preview::Cached(&CachedPreview::LargeFile).alternate() == "<File too large to preview>"@,
        Preview::Cached(&CachedPreview::NotFound).alternate() == "<File not found>"@,
        Preview::EditorDocument(&doc).alternate() == "<Invalid file location>"@,
        Preview::Cached(&CachedPreview::Directory(listing)).alternate()
            == "<Invalid directory location>"@,
        Preview::Cached(&CachedPreview::Directory(listing)).document_shown() is None,
        Preview::Cached(&CachedPreview::Directory(listing)).media_shown() is None,
        Preview::Cached(
            &CachedPreview::Media(MediaPreview::Ready(Box::new(media))),
        ).alternate() == "<Invalid file location>"@,
        Preview::Cached(&CachedPreview::Document(Box::new(doc))).alternate()
            == "<Invalid file location>"@,
        Preview::Cached(
            &CachedPreview::Media(MediaPreview::Rendering { kind, started }),
        ).alternate() == (match kind {
            MediaKind::Pdf => "<Rendering PDF\u{2026}>"@,
            MediaKind::Image => "<Rendering image\u{2026}>"@,
        }),
        Preview::Cached(
            &CachedPreview::Media(MediaPreview::Rendering { kind, started }),
        ).media_shown() is None,
{
}

/// A picture that cannot be shown is stood in for by the reason.
pub proof fn law_reasons_stand_in_for_pictures(reason: String)
    ensures
        Preview::Cached(
            &CachedPreview::Media(MediaPreview::Unavailable(reason)),
        ).alternate() == reason@,
{
}

/// A preview that waits for a raster is one that nothing was started for, and
/// one that lacks graphics says so.
pub proof fn law_probed_pictures_wait_or_say_why(made: CachedPreview, kind: MediaKind)
    ensures
        waits_for_raster(made, kind) <==> made == CachedPreview::Media(
            MediaPreview::Rendering { kind, started: false },
        ),
        lacks_graphics(made) ==> Preview::Cached(&made).alternate()
            == "<No image support in this terminal>"@,
        waits_for_raster(made, kind) ==> !lacks_graphics(made),
{
}

/// A listing is seen as it is, row by row.
pub proof fn law_listings_are_seen_as_they_are(listing: Seq<(String, bool)>, i: int)
    requires
        0 <= i < listing.len(),
    ensures
        listing_view(listing).len() == listing.len(),
        listing_view(listing)[i].0 == listing[i].0@,
        listing_view(listing)[i].1 == listing[i].1,
{
}

/// Files of up to ten mebibytes are read.
pub proof fn law_ten_mebibytes_are_read(len: u64)
    ensures
        len > MAX_FILE_SIZE_FOR_PREVIEW <==> len > 10 * 1024 * 1024,
{
}

/// What lies below the directory is listed by what is left of its path without
/// the directory.
pub proof fn law_listings_show_what_lies_below(dir: Seq<u8>, file: Seq<u8>)
    ensures
        path::stripped(file, dir) matches Some(rest) ==> listed_name(dir, file, false) == Some(
            text::lossy_text(rest),
        ) && listed_name(dir, file, true) == Some(text::lossy_text(rest) + "/"@),
{
}

} // verus!
