//! Terminal graphics: what the terminal has been sent, what it is still to be
//! sent, and the cells that show an image.
//!
//! Images are drawn with the Kitty graphics protocol's unicode placeholders:
//! an image is transmitted once, out of band, and then anchored to ordinary
//! text cells, each of which holds a placeholder character followed by the
//! diacritics of its row and column.
use std::collections::HashMap;
use vstd::prelude::*;
use vstd::string::*;
use vstd::utf8::*;
use crate::media::Raster;
use crate::text;

verus! {

/// How image and PDF rendering is enabled.
#[derive(Debug, Clone, Copy, PartialEq, Eq, Structural)]
pub enum ImageRenderingConfig {
    /// Detect terminals known to support kitty unicode placeholders.
    Auto,
    /// Force the kitty graphics protocol.
    Kitty,
    /// Never render media documents graphically.
    Disabled,
}

/// What the terminal can draw.
#[derive(Debug, Clone, Copy, PartialEq, Eq, Structural)]
pub enum GraphicsMode {
    /// The terminal cannot draw images.
    Off,
    Kitty,
}

impl Default for ImageRenderingConfig {
    fn default() -> (config: ImageRenderingConfig)
        ensures
            config == ImageRenderingConfig::Auto,
    {
        ImageRenderingConfig::Auto
    }
}

impl Default for GraphicsMode {
    fn default() -> (mode: GraphicsMode)
        ensures
            mode == GraphicsMode::Off,
    {
        GraphicsMode::Off
    }
}

/// Whether the name of a terminal is that of one known to implement unicode
/// placeholder placements. Terminals that implement the protocol without
/// placeholders are deliberately absent.
pub open spec fn known_terminal(name: Seq<char>) -> bool {
    text::occurs(name, "kitty"@) || text::occurs(name, "ghostty"@)
}

/// What the terminal can draw, given the lower-cased names that it goes by and
/// whether it is a kitty window.
pub fn mode_of_terminal(term: &str, term_program: &str, kitty_window: bool) -> (mode: GraphicsMode)
    ensures
        mode == (if known_terminal(term@) || known_terminal(term_program@) || kitty_window {
            GraphicsMode::Kitty
        } else {
            GraphicsMode::Off
        }),
{
    if text::contains(term, "kitty") || text::contains(term_program, "kitty") || text::contains(
        term,
        "ghostty",
    ) || text::contains(term_program, "ghostty") || kitty_window {
        GraphicsMode::Kitty
    } else {
        GraphicsMode::Off
    }
}

/// What the terminal can draw. `term` and `term_program` are the names that
/// the environment gives for the terminal, empty where it gives none.
pub fn detect_graphics_mode(
    config: ImageRenderingConfig,
    term: &str,
    term_program: &str,
    kitty_window: bool,
) -> (mode: GraphicsMode)
    ensures
        mode == (match config {
            ImageRenderingConfig::Disabled => GraphicsMode::Off,
            ImageRenderingConfig::Kitty => GraphicsMode::Kitty,
            ImageRenderingConfig::Auto => if known_terminal(text::lowercase(term@))
                || known_terminal(text::lowercase(term_program@)) || kitty_window {
                GraphicsMode::Kitty
            } else {
                GraphicsMode::Off
            },
        }),
{
    match config {
        ImageRenderingConfig::Disabled => GraphicsMode::Off,
        ImageRenderingConfig::Kitty => GraphicsMode::Kitty,
        ImageRenderingConfig::Auto => mode_of_terminal(
            text::to_lowercase(term).as_str(),
            text::to_lowercase(term_program).as_str(),
            kitty_window,
        ),
    }
}

/// How many images to leave loaded in the terminal. A rasterized PDF page is
/// tens of megabytes decoded, and terminals cap their image storage by
/// evicting images themselves, which blanks out placements that are still on
/// screen. Images that were paged away from are freed instead, and are
/// retransmitted from the PNG cache when they come back.
pub const MAX_LOADED_IMAGES: usize = 4;

/// The virtual placement that was transmitted for an image.
#[derive(Debug, Clone, Copy, PartialEq, Eq)]
pub struct Placement {
    /// (cols, rows) the virtual placement was transmitted with.
    pub size: (u16, u16),
    /// Frame this image was last drawn in.
    pub used: u64,
}

/// Terminal graphics state of one editor: what has been transmitted, and what
/// is queued for transmission on the next flush.
pub struct GraphicsState {
    pub mode: GraphicsMode,
    /// Window size in pixels, if the terminal reports it. Refreshed per frame.
    pub window_px: Option<(u16, u16)>,
    /// Escape sequences to write to the terminal before the next draw.
    pub pending: Vec<String>,
    /// Image id to the virtual placement already transmitted for it.
    pub placements: HashMap<u32, Placement>,
    /// Counts rendered frames, to tell images drawn in this frame from ones
    /// left over from earlier pages.
    pub frame: u64,
}

/// The character of the base64 alphabet for a value below 64.
pub open spec fn base64_letter(v: int) -> char {
    if v < 26 {
        ((65 + v) as u8) as char
    } else if v < 52 {
        ((71 + v) as u8) as char
    } else if v < 62 {
        ((v - 4) as u8) as char
    } else if v == 62 {
        '+'
    } else {
        '/'
    }
}

/// Byte `i` of the data, or zero past its end.
pub open spec fn byte_or_zero(data: Seq<u8>, i: int) -> int {
    if i < data.len() {
        data[i] as int
    } else {
        0
    }
}

/// The four characters for the first three bytes, padded with `=` where there
/// are fewer.
pub open spec fn base64_group(data: Seq<u8>) -> Seq<char> {
    let n = byte_or_zero(data, 0) * 65536 + byte_or_zero(data, 1) * 256 + byte_or_zero(data, 2);
    seq![
        base64_letter(n / 262144),
        base64_letter(n / 4096 % 64),
        if data.len() > 1 {
            base64_letter(n / 64 % 64)
        } else {
            '='
        },
        if data.len() > 2 {
            base64_letter(n % 64)
        } else {
            '='
        },
    ]
}

/// Bytes in base64, with padding.
pub open spec fn base64_of(data: Seq<u8>) -> Seq<char>
    decreases data.len(),
{
    if data.len() == 0 {
        Seq::<char>::empty()
    } else if data.len() <= 3 {
        base64_group(data)
    } else {
        base64_group(data.take(3)) + base64_of(data.skip(3))
    }
}

/// The escape that transmits an image and its placement. The payload is the
/// path of a PNG that the terminal reads itself.
pub open spec fn transmit_text(png: Seq<u8>, id: u32, cols: u16, rows: u16) -> Seq<char> {
    "\x1b_Ga=T,U=1,q=2,f=100,t=f,i="@ + text::decimal(id as nat) + ",c="@ + text::decimal(cols as nat) + ",r="@
        + text::decimal(rows as nat) + ";"@ + base64_of(encode_utf8(text::lossy_text(png))) + "\x1b\\"@
}

/// The escape that frees an image and all of its placements.
pub open spec fn delete_text(id: u32) -> Seq<char> {
    "\x1b_Ga=d,d=I,i="@ + text::decimal(id as nat) + ",q=2\x1b\\"@
}

/// Whether an image was not drawn in the current frame.
pub open spec fn is_stale(m: Map<u32, Placement>, frame: u64, id: u32) -> bool {
    m.contains_key(id) && m[id].used < frame
}

/// Whether `a` was drawn before `b`; of two drawn in the same frame the lower
/// id counts as the older.
pub open spec fn no_newer(m: Map<u32, Placement>, a: u32, b: u32) -> bool {
    m[a].used < m[b].used || (m[a].used == m[b].used && a <= b)
}

/// The image to free first.
pub open spec fn is_oldest(m: Map<u32, Placement>, frame: u64, id: u32) -> bool {
    &&& is_stale(m, frame, id)
    &&& forall|other: u32| #[trigger] is_stale(m, frame, other) ==> no_newer(m, id, other)
}

/// Whether something is to be freed: too much is loaded, and not all of it was
/// drawn in the current frame.
pub open spec fn must_evict(m: Map<u32, Placement>, frame: u64) -> bool {
    m.dom().len() > MAX_LOADED_IMAGES && exists|id: u32| is_oldest(m, frame, id)
}

/// The images that are freed, in order.
pub open spec fn evicted(m: Map<u32, Placement>, frame: u64) -> Seq<u32>
    decreases m.dom().len(),
    when m.dom().finite()
{
    if must_evict(m, frame) {
        let id = choose|id: u32| is_oldest(m, frame, id);
        seq![id] + evicted(m.remove(id), frame)
    } else {
        Seq::<u32>::empty()
    }
}

/// What stays loaded.
pub open spec fn kept(m: Map<u32, Placement>, frame: u64) -> Map<u32, Placement>
    decreases m.dom().len(),
    when m.dom().finite()
{
    if must_evict(m, frame) {
        let id = choose|id: u32| is_oldest(m, frame, id);
        kept(m.remove(id), frame)
    } else {
        m
    }
}

/// The escapes that free the given images.
pub open spec fn delete_texts(ids: Seq<u32>) -> Seq<Seq<char>> {
    ids.map_values(|id: u32| delete_text(id))
}

proof fn lemma_oldest_is_unique(m: Map<u32, Placement>, frame: u64, a: u32, b: u32)
    requires
        is_oldest(m, frame, a),
        is_oldest(m, frame, b),
    ensures
        a == b,
{
    assert(no_newer(m, a, b));
    assert(no_newer(m, b, a));
}

/// The character of the base64 alphabet.
fn letter(v: u32) -> (c: char)
    requires
        v < 64,
    ensures
        c == base64_letter(v as int),
{
    if v < 26 {
        (65u8 + v as u8) as char
    } else if v < 52 {
        (71u8 + v as u8) as char
    } else if v < 62 {
        (v as u8 - 4u8) as char
    } else if v == 62 {
        '+'
    } else {
        '/'
    }
}

/// Encodes bytes in base64.
pub fn base64(data: &[u8]) -> (out: String)
    ensures
        out@ == base64_of(data@),
{
    let mut out: String = String::new();
    let mut i: usize = 0;
    assert(data@.skip(0) =~= data@);
    while i < data.len()
        invariant
            i <= data@.len(),
            base64_of(data@) == out@ + base64_of(data@.skip(i as int)),
        decreases data@.len() - i,
    {
        let ghost rest = data@.skip(i as int);
        let left: usize = data.len() - i;
        let b0: u32 = data[i] as u32;
        let b1: u32 = if left > 1 { data[i + 1] as u32 } else { 0 };
        let b2: u32 = if left > 2 { data[i + 2] as u32 } else { 0 };
        let n: u32 = b0 * 65536 + b1 * 256 + b2;
        let ghost group = base64_group(if rest.len() <= 3 { rest } else { rest.take(3) });
        let ghost before = out@;
        out.push(letter(n / 262144));
        out.push(letter(n / 4096 % 64));
        out.push(if left > 1 { letter(n / 64 % 64) } else { '=' });
        out.push(if left > 2 { letter(n % 64) } else { '=' });
        assert(out@ =~= before + group);
        if left > 3 {
            i += 3;
            assert(rest.skip(3) =~= data@.skip(i as int));
        } else {
            i = data.len();
            assert(data@.skip(i as int) =~= Seq::<u8>::empty());
        }
        assert(out@ + base64_of(data@.skip(i as int)) =~= before + base64_of(rest));
    }
    assert(data@.skip(i as int) =~= Seq::<u8>::empty());
    assert(out@ + Seq::<char>::empty() =~= out@);
    out
}

/// The escape that transmits a raster with a placement of the given size.
pub fn transmit_escape(raster: &Raster, cols: u16, rows: u16) -> (escape: String)
    ensures
        escape@ == transmit_text(raster.png@, raster.id, cols, rows),
{
    let mut out: String = String::new();
    out.append("\x1b_Ga=T,U=1,q=2,f=100,t=f,i=");
    text::push_decimal(&mut out, raster.id as u64);
    out.append(",c=");
    text::push_decimal(&mut out, cols as u64);
    out.append(",r=");
    text::push_decimal(&mut out, rows as u64);
    out.append(";");
    let path: String = raster.png.display();
    out.append(base64(path.as_str().as_bytes()).as_str());
    out.append("\x1b\\");
    assert(out@ =~= transmit_text(raster.png@, raster.id, cols, rows));
    out
}

/// The escape that frees an image. Its PNG stays in the cache on disk, so a
/// page that comes back is retransmitted without being rasterized again.
pub fn delete_escape(id: u32) -> (escape: String)
    ensures
        escape@ == delete_text(id),
{
    let mut out: String = String::new();
    out.append("\x1b_Ga=d,d=I,i=");
    text::push_decimal(&mut out, id as u64);
    out.append(",q=2\x1b\\");
    assert(out@ =~= delete_text(id));
    out
}

impl Default for GraphicsState {
    fn default() -> (state: GraphicsState)
        ensures
            state.mode == GraphicsMode::Off,
            state.window_px is None,
            state.pending@.len() == 0,
            state.placements@ == Map::<u32, Placement>::empty(),
            state.frame == 0,
    {
        GraphicsState {
            mode: GraphicsMode::Off,
            window_px: None,
            pending: Vec::new(),
            placements: HashMap::new(),
            frame: 0,
        }
    }
}

impl GraphicsState {
    /// Whether the image is loaded with a placement of this size.
    pub open spec fn has_placement(&self, id: u32, size: (u16, u16)) -> bool {
        self.placements@.contains_key(id) && self.placements@[id].size == size
    }

    /// The images loaded once `id` has been drawn in the current frame, before
    /// anything is freed.
    pub open spec fn with_drawn(&self, id: u32, size: (u16, u16)) -> Map<u32, Placement> {
        self.placements@.insert(id, Placement { size, used: self.frame })
    }

    /// What placing an image does: it counts as drawn in this frame, and unless
    /// it is loaded in that size already it is queued for transmission, with
    /// the images that have to make room for it.
    pub open spec fn placed_by(&self, after: GraphicsState, raster: Raster, cols: u16, rows: u16) -> bool {
        let size = (cols, rows);
        let drawn = self.with_drawn(raster.id, size);
        &&& after.mode == self.mode
        &&& after.window_px == self.window_px
        &&& after.frame == self.frame
        &&& if self.has_placement(raster.id, size) {
            &&& after.placements@ == drawn
            &&& after.pending == self.pending
        } else {
            &&& after.placements@ == kept(drawn, self.frame)
            &&& text::texts(after.pending@) == text::texts(self.pending@).push(
                transmit_text(raster.png@, raster.id, cols, rows),
            ) + delete_texts(evicted(drawn, self.frame))
        }
    }

    /// The image that is freed first, if any may be freed.
    fn oldest_stale(&self) -> (oldest: Option<u32>)
        ensures
            match oldest {
                Some(id) => is_oldest(self.placements@, self.frame, id),
                None => forall|id: u32| !is_stale(self.placements@, self.frame, id),
            },
    {
        let mut best: Option<(u32, u64)> = None;
        let ghost m = self.placements@;
        for (id, placement) in it: self.placements.iter()
            invariant
                m == self.placements@,
                it.seq() == vstd::std_specs::iter::IteratorSpec::remaining(
                    &vstd::std_specs::hash::spec_hash_map_iter(&self.placements),
                ),
                match best {
                    Some((b, used)) => is_stale(m, self.frame, b) && m[b].used == used && forall|
                        j: int,
                    |
                        0 <= j < it.index() && is_stale(m, self.frame, *(#[trigger] it.seq()[j]).0)
                            ==> no_newer(m, b, *it.seq()[j].0),
                    None => forall|j: int|
                        0 <= j < it.index() ==> !is_stale(m, self.frame, *(#[trigger] it.seq()[j]).0),
                },
        {
            assert(m.contains_key(*it.seq()[it.index() as int].0));
            if placement.used < self.frame {
                match best {
                    Some((b, used)) => {
                        if placement.used < used || (placement.used == used && *id < b) {
                            best = Some((*id, placement.used));
                        }
                    },
                    None => {
                        best = Some((*id, placement.used));
                    },
                }
            }
        }
        proof {
            let all = vstd::std_specs::iter::IteratorSpec::remaining(
                    &vstd::std_specs::hash::spec_hash_map_iter(&self.placements),
                );
            assert forall|id: u32| #[trigger] is_stale(m, self.frame, id) implies exists|j: int|
                0 <= j < all.len() && *(#[trigger] all[j]).0 == id by {
                assert(all.contains((&id, &m[id])));
            }
        }
        match best {
            Some((id, _)) => Some(id),
            None => None,
        }
    }

    /// Releases images that were not drawn in the current frame, oldest first,
    /// until at most [`MAX_LOADED_IMAGES`] remain. Images drawn this frame are
    /// never evicted, so several media splits can stay on screen at once.
    pub fn evict_unused(&mut self)
        ensures
            final(self).mode == old(self).mode,
            final(self).window_px == old(self).window_px,
            final(self).frame == old(self).frame,
            final(self).placements@ == kept(old(self).placements@, old(self).frame),
            text::texts(final(self).pending@) == text::texts(old(self).pending@) + delete_texts(
                evicted(old(self).placements@, old(self).frame),
            ),
    {
        let ghost m0 = self.placements@;
        let ghost frame = self.frame;
        let ghost mut gone: Seq<u32> = Seq::empty();
        assert(text::texts(self.pending@) + delete_texts(gone) =~= text::texts(self.pending@));
        assert(gone + evicted(m0, frame) =~= evicted(m0, frame));
        while self.placements.len() > MAX_LOADED_IMAGES
            invariant
                self.mode == old(self).mode,
                self.window_px == old(self).window_px,
                self.frame == old(self).frame,
                frame == old(self).frame,
                m0 == old(self).placements@,
                self.placements@.dom().finite(),
                kept(m0, frame) == kept(self.placements@, frame),
                evicted(m0, frame) == gone + evicted(self.placements@, frame),
                text::texts(self.pending@) == text::texts(old(self).pending@) + delete_texts(gone),
            decreases self.placements@.dom().len(),
        {
            let ghost m = self.placements@;
            match self.oldest_stale() {
                None => {
                    assert(!must_evict(m, frame));
                    assert(gone + Seq::<u32>::empty() =~= gone);
                    return ;
                },
                Some(id) => {
                    proof {
                        let first = choose|i: u32| is_oldest(m, frame, i);
                        lemma_oldest_is_unique(m, frame, first, id);
                    }
                    self.placements.remove(&id);
                    let escape: String = delete_escape(id);
                    let ghost queued = self.pending@;
                    self.pending.push(escape);
                    proof {
                        assert(text::texts(self.pending@) =~= text::texts(queued).push(delete_text(id)));
                        assert(delete_texts(gone.push(id)) =~= delete_texts(gone).push(delete_text(id)));
                        assert(gone + (seq![id] + evicted(m.remove(id), frame)) =~= gone.push(id)
                            + evicted(m.remove(id), frame));
                        gone = gone.push(id);
                    }
                },
            }
        }
        assert(gone + Seq::<u32>::empty() =~= gone);
    }

    /// Queues a (re)transmission if this raster has no placement yet or the
    /// placement size changed. Returns false when graphics are unavailable.
    pub fn ensure_placement(&mut self, raster: &Raster, cols: u16, rows: u16) -> (available: bool)
        ensures
            available == (old(self).mode == GraphicsMode::Kitty),
            !available ==> *final(self) == *old(self),
            available ==> old(self).placed_by(*final(self), *raster, cols, rows),
    {
        match self.mode {
            GraphicsMode::Off => false,
            GraphicsMode::Kitty => {
                let frame: u64 = self.frame;
                let current: bool = match self.placements.get(&raster.id) {
                    Some(placement) => placement.size.0 == cols && placement.size.1 == rows,
                    None => false,
                };
                if current {
                    self.placements.insert(raster.id, Placement { size: (cols, rows), used: frame });
                } else {
                    let ghost queued = self.pending@;
                    self.pending.push(transmit_escape(raster, cols, rows));
                    assert(text::texts(self.pending@) =~= text::texts(queued).push(
                        transmit_text(raster.png@, raster.id, cols, rows),
                    ));
                    self.placements.insert(raster.id, Placement { size: (cols, rows), used: frame });
                    self.evict_unused();
                }
                true
            },
        }
    }

    /// Hands out the queued escapes and starts the next frame.
    pub fn take_pending(&mut self) -> (escapes: Vec<String>)
        ensures
            escapes == old(self).pending,
            final(self).pending@.len() == 0,
            final(self).frame == (if old(self).frame == u64::MAX {
                0
            } else {
                old(self).frame + 1
            }),
            final(self).mode == old(self).mode,
            final(self).window_px == old(self).window_px,
            final(self).placements == old(self).placements,
    {
        self.frame = self.frame.wrapping_add(1);
        let mut escapes: Vec<String> = Vec::new();
        std::mem::swap(&mut escapes, &mut self.pending);
        escapes
    }

    /// Forgets everything transmitted, as after the terminal was released and
    /// reclaimed; placements are retransmitted lazily.
    pub fn reset(&mut self)
        ensures
            final(self).placements@ == Map::<u32, Placement>::empty(),
            final(self).pending@.len() == 0,
            final(self).mode == old(self).mode,
            final(self).window_px == old(self).window_px,
            final(self).frame == old(self).frame,
    {
        self.placements.clear();
        self.pending.clear();
    }
}

/// An image that is not stale keeps its place.
proof fn lemma_kept_if_not_stale(m: Map<u32, Placement>, frame: u64, id: u32)
    requires
        m.dom().finite(),
        m.contains_key(id),
        !is_stale(m, frame, id),
    ensures
        kept(m, frame).contains_key(id),
        kept(m, frame)[id] == m[id],
        !evicted(m, frame).contains(id),
    decreases m.dom().len(),
{
    if must_evict(m, frame) {
        let first = choose|i: u32| is_oldest(m, frame, i);
        lemma_kept_if_not_stale(m.remove(first), frame, id);
        let rest = evicted(m.remove(first), frame);
        assert forall|i: int| 0 <= i < (seq![first] + rest).len() implies (seq![first] + rest)[i]
            != id by {
            if i > 0 {
                assert((seq![first] + rest)[i] == rest[i - 1]);
                assert(rest.contains(rest[i - 1]));
            }
        }
    }
}

/// Images drawn in the current frame are never freed, however many there are.
pub proof fn law_images_on_screen_are_kept(m: Map<u32, Placement>, frame: u64, id: u32)
    requires
        m.dom().finite(),
        m.contains_key(id),
        m[id].used == frame,
    ensures
        kept(m, frame).contains_key(id),
        kept(m, frame)[id] == m[id],
        !evicted(m, frame).contains(id),
{
    lemma_kept_if_not_stale(m, frame, id);
}

/// Afterwards no more images are loaded than should be, unless all of them are
/// on screen; and no more of them were freed than had to be.
pub proof fn law_freeing_leaves_just_enough(m: Map<u32, Placement>, frame: u64)
    requires
        m.dom().finite(),
    ensures
        kept(m, frame).dom().finite(),
        kept(m, frame).dom().len() <= MAX_LOADED_IMAGES || forall|id: u32|
            !is_stale(kept(m, frame), frame, id),
        m.dom().len() <= MAX_LOADED_IMAGES ==> kept(m, frame) == m,
        m.dom().len() >= MAX_LOADED_IMAGES ==> kept(m, frame).dom().len() >= MAX_LOADED_IMAGES,
    decreases m.dom().len(),
{
    if must_evict(m, frame) {
        let first = choose|i: u32| is_oldest(m, frame, i);
        law_freeing_leaves_just_enough(m.remove(first), frame);
    } else if m.dom().len() > MAX_LOADED_IMAGES {
        assert forall|id: u32| !is_stale(m, frame, id) by {
            if is_stale(m, frame, id) {
                lemma_there_is_an_oldest(m, frame, id);
            }
        }
    }
}

/// The oldest of the stale images in a set, if it holds any.
proof fn lemma_oldest_among(m: Map<u32, Placement>, frame: u64, among: Set<u32>) -> (oldest: Option<
    u32,
>)
    requires
        among.finite(),
    ensures
        match oldest {
            Some(id) => among.contains(id) && is_stale(m, frame, id) && forall|other: u32|
                among.contains(other) && #[trigger] is_stale(m, frame, other) ==> no_newer(m, id, other),
            None => forall|other: u32|
                among.contains(other) ==> !#[trigger] is_stale(m, frame, other),
        },
    decreases among.len(),
{
    if among.len() == 0 {
        assert forall|other: u32| among.contains(other) implies !#[trigger] is_stale(
            m,
            frame,
            other,
        ) by {
            assert(among =~= Set::<u32>::empty());
        }
        None
    } else {
        let one = among.choose();
        let rest = lemma_oldest_among(m, frame, among.remove(one));
        if !is_stale(m, frame, one) {
            rest
        } else {
            match rest {
                Some(id) => if no_newer(m, one, id) {
                    Some(one)
                } else {
                    Some(id)
                },
                None => Some(one),
            }
        }
    }
}

/// Where an image is stale, one is the oldest.
proof fn lemma_there_is_an_oldest(m: Map<u32, Placement>, frame: u64, id: u32)
    requires
        m.dom().finite(),
        is_stale(m, frame, id),
    ensures
        exists|i: u32| is_oldest(m, frame, i),
{
    let oldest = lemma_oldest_among(m, frame, m.dom());
    assert(oldest is Some);
    assert(is_oldest(m, frame, oldest.unwrap()));
}

/// Every image is either kept as it was or freed, and none is both.
pub proof fn law_images_are_kept_or_freed(m: Map<u32, Placement>, frame: u64, id: u32)
    requires
        m.dom().finite(),
    ensures
        m.contains_key(id) <==> kept(m, frame).contains_key(id) || evicted(m, frame).contains(id),
        !(kept(m, frame).contains_key(id) && evicted(m, frame).contains(id)),
        kept(m, frame).contains_key(id) ==> kept(m, frame)[id] == m[id],
    decreases m.dom().len(),
{
    if must_evict(m, frame) {
        let first = choose|i: u32| is_oldest(m, frame, i);
        let fewer = m.remove(first);
        law_images_are_kept_or_freed(fewer, frame, id);
        law_images_are_kept_or_freed(fewer, frame, first);
        let rest = evicted(fewer, frame);
        let all = seq![first] + rest;
        if rest.contains(id) {
            let j = choose|j: int| 0 <= j < rest.len() && rest[j] == id;
            assert(all[j + 1] == id);
        }
        if id == first {
            assert(all[0] == id);
        }
        if all.contains(id) && id != first {
            let j = choose|j: int| 0 <= j < all.len() && all[j] == id;
            assert(rest[j - 1] == id);
        }
    }
}

/// Images are freed in the order they were last drawn in.
pub proof fn law_the_oldest_goes_first(m: Map<u32, Placement>, frame: u64, i: int, j: int)
    requires
        m.dom().finite(),
        0 <= i < j < evicted(m, frame).len(),
    ensures
        no_newer(m, evicted(m, frame)[i], evicted(m, frame)[j]),
    decreases m.dom().len(),
{
    if must_evict(m, frame) {
        let first = choose|k: u32| is_oldest(m, frame, k);
        let fewer = m.remove(first);
        let rest = evicted(fewer, frame);
        assert(evicted(m, frame)[j] == rest[j - 1]);
        assert(rest.contains(rest[j - 1]));
        law_images_are_kept_or_freed(fewer, frame, rest[j - 1]);
        lemma_freed_are_stale(fewer, frame, rest[j - 1]);
        if i > 0 {
            assert(evicted(m, frame)[i] == rest[i - 1]);
            assert(rest.contains(rest[i - 1]));
            law_images_are_kept_or_freed(fewer, frame, rest[i - 1]);
            law_the_oldest_goes_first(fewer, frame, i - 1, j - 1);
        } else {
            assert(is_stale(m, frame, rest[j - 1]));
        }
    }
}

/// Only images that are not on screen are freed.
proof fn lemma_freed_are_stale(m: Map<u32, Placement>, frame: u64, id: u32)
    requires
        m.dom().finite(),
        evicted(m, frame).contains(id),
    ensures
        is_stale(m, frame, id),
{
    law_images_are_kept_or_freed(m, frame, id);
    if !is_stale(m, frame, id) {
        lemma_kept_if_not_stale(m, frame, id);
    }
}

/// Freeing images twice in a row frees nothing more.
pub proof fn law_freeing_once_is_enough(m: Map<u32, Placement>, frame: u64)
    requires
        m.dom().finite(),
    ensures
        evicted(kept(m, frame), frame) == Seq::<u32>::empty(),
        kept(kept(m, frame), frame) == kept(m, frame),
    decreases m.dom().len(),
{
    if must_evict(m, frame) {
        let first = choose|i: u32| is_oldest(m, frame, i);
        law_freeing_once_is_enough(m.remove(first), frame);
    }
}

/// An image that has just been placed is loaded in the size it was placed in,
/// so placing it again sends nothing, in this frame or in the next.
pub proof fn law_a_placed_image_is_not_sent_again(
    before: GraphicsState,
    after: GraphicsState,
    raster: Raster,
    cols: u16,
    rows: u16,
)
    requires
        before.placements@.dom().finite(),
        before.placed_by(after, raster, cols, rows),
    ensures
        after.has_placement(raster.id, (cols, rows)),
{
    let drawn = before.with_drawn(raster.id, (cols, rows));
    law_images_on_screen_are_kept(drawn, before.frame, raster.id);
}

/// Base64 takes four characters for each three bytes begun.
pub proof fn law_base64_length(data: Seq<u8>)
    ensures
        base64_of(data).len() == 4 * ((data.len() + 2) / 3),
    decreases data.len(),
{
    if data.len() > 3 {
        law_base64_length(data.skip(3));
    }
}

/// The value of a character of the base64 alphabet, if it is one.
pub open spec fn base64_value(c: char) -> Option<int> {
    if 'A' <= c <= 'Z' {
        Some(c as int - 65)
    } else if 'a' <= c <= 'z' {
        Some(c as int - 71)
    } else if '0' <= c <= '9' {
        Some(c as int + 4)
    } else if c == '+' {
        Some(62)
    } else if c == '/' {
        Some(63)
    } else {
        None
    }
}

/// How many bytes four characters of base64 stand for: three, less one for
/// each `=` at their end.
pub open spec fn base64_count(group: Seq<char>) -> int {
    if group[3] != '=' {
        3
    } else if group[2] != '=' {
        2
    } else {
        1
    }
}

/// The value of a character of a group; the padding stands for nothing.
pub open spec fn base64_part(c: char) -> Option<int> {
    if c == '=' {
        Some(0)
    } else {
        base64_value(c)
    }
}

/// The bytes that four characters of base64 stand for. Behind padding comes
/// nothing but padding.
#[verifier::opaque]
pub open spec fn base64_group_read(group: Seq<char>) -> Option<Seq<u8>> {
    match (
        base64_value(group[0]),
        base64_value(group[1]),
        base64_part(group[2]),
        base64_part(group[3]),
    ) {
        (Some(a), Some(b), Some(c), Some(d)) => {
            let n = a * 262144 + b * 4096 + c * 64 + d;
            let bytes = seq![(n / 65536) as u8, (n / 256 % 256) as u8, (n % 256) as u8];
            if group[2] == '=' && group[3] != '=' {
                None
            } else {
                Some(bytes.take(base64_count(group)))
            }
        },
        _ => None,
    }
}

/// The bytes that a text in base64 stands for: four characters at a time, with
/// padding in the last four only.
pub open spec fn base64_read(text: Seq<char>) -> Option<Seq<u8>>
    decreases text.len(),
{
    if text.len() == 0 {
        Some(Seq::<u8>::empty())
    } else if text.len() < 4 {
        None
    } else {
        match (base64_group_read(text.take(4)), base64_read(text.skip(4))) {
            (Some(bytes), Some(rest)) => if rest.len() > 0 && bytes.len() < 3 {
                None
            } else {
                Some(bytes + rest)
            },
            _ => None,
        }
    }
}

/// A letter of base64 has the value that it was made of, and is not the
/// padding.
proof fn lemma_letter_value(v: int)
    requires
        0 <= v < 64,
    ensures
        base64_value(base64_letter(v)) == Some(v),
        base64_letter(v) != '=',
{
}

/// A number of 24 bits is made up of its four parts of six bits.
proof fn lemma_recompose(n: int)
    requires
        0 <= n,
    ensures
        n == 262144 * (n / 262144) + 4096 * (n / 4096 % 64) + 64 * (n / 64 % 64) + n % 64,
{
    vstd::arithmetic::div_mod::lemma_div_denominator(n, 64, 64);
    vstd::arithmetic::div_mod::lemma_div_denominator(n, 4096, 64);
    vstd::arithmetic::div_mod::lemma_fundamental_div_mod(n, 64);
    vstd::arithmetic::div_mod::lemma_fundamental_div_mod(n / 64, 64);
    vstd::arithmetic::div_mod::lemma_fundamental_div_mod(n / 4096, 64);
}

/// The bits that a group of fewer than three bytes leaves out are zero, and the
/// number that the bytes make up tells them all.
proof fn lemma_three_bytes(b0: int, b1: int, b2: int)
    requires
        0 <= b0 < 256,
        0 <= b1 < 256,
        0 <= b2 < 256,
    ensures
        ({
            let n = b0 * 65536 + b1 * 256 + b2;
            &&& b1 == 0 && b2 == 0 ==> n / 64 % 64 == 0
            &&& b2 == 0 ==> n % 64 == 0
            &&& 0 <= n < 16777216
            &&& n / 65536 == b0
            &&& n / 256 % 256 == b1
            &&& n % 256 == b2
        }),
{
}

/// A group is read as the bytes that it was made of, and has one `=` for each
/// byte that is missing in it.
proof fn lemma_group_is_read(data: Seq<u8>)
    requires
        0 < data.len() <= 3,
    ensures
        base64_group_read(base64_group(data)) == Some(data),
        base64_count(base64_group(data)) == data.len(),
        forall|i: int|
            0 <= i < 4 ==> base64_value(#[trigger] base64_group(data)[i]) is Some == (i <= data.len()),
        forall|i: int| data.len() < i < 4 ==> #[trigger] base64_group(data)[i] == '=',
{
    let b0 = byte_or_zero(data, 0);
    let b1 = byte_or_zero(data, 1);
    let b2 = byte_or_zero(data, 2);
    let n = b0 * 65536 + b1 * 256 + b2;
    lemma_three_bytes(b0, b1, b2);
    lemma_recompose(n);
    lemma_letter_value(n / 262144);
    lemma_letter_value(n / 4096 % 64);
    lemma_letter_value(n / 64 % 64);
    lemma_letter_value(n % 64);
    reveal(base64_group_read);
    let bytes = seq![(n / 65536) as u8, (n / 256 % 256) as u8, (n % 256) as u8];
    assert(bytes.take(data.len() as int) =~= data);
}

/// Four characters are read apart from those that follow them.
proof fn lemma_read_behind(group: Seq<char>, text: Seq<char>, bytes: Seq<u8>, rest: Seq<u8>)
    requires
        group.len() == 4,
        base64_group_read(group) == Some(bytes),
        base64_read(text) == Some(rest),
        bytes.len() >= 3 || rest.len() == 0,
    ensures
        base64_read(group + text) == Some(bytes + rest),
{
    assert((group + text).take(4) =~= group);
    assert((group + text).skip(4) =~= text);
}

/// Base64 decodes to the bytes that were encoded.
pub proof fn law_base64_decodes(data: Seq<u8>)
    ensures
        base64_read(base64_of(data)) == Some(data),
    decreases data.len(),
{
    if data.len() == 0 {
        assert(base64_of(data) =~= Seq::<char>::empty());
        assert(data =~= Seq::<u8>::empty());
    } else if data.len() <= 3 {
        let none = Seq::<char>::empty();
        lemma_group_is_read(data);
        lemma_read_behind(base64_group(data), none, data, Seq::<u8>::empty());
        assert(base64_group(data) + none =~= base64_group(data));
        assert(data + Seq::<u8>::empty() =~= data);
    } else {
        let head = data.take(3);
        let tail = data.skip(3);
        lemma_group_is_read(head);
        law_base64_decodes(tail);
        lemma_read_behind(base64_group(head), base64_of(tail), head, tail);
        assert(head + tail =~= data);
    }
}

/// Base64 loses nothing: bytes with the same encoding are the same.
pub proof fn law_base64_is_faithful(a: Seq<u8>, b: Seq<u8>)
    requires
        base64_of(a) == base64_of(b),
    ensures
        a == b,
{
    law_base64_decodes(a);
    law_base64_decodes(b);
}

/// How many `=` stand at the end of the encoding of a number of bytes.
pub open spec fn base64_padding(len: int) -> int {
    (3 - len % 3) % 3
}

/// Base64 is made of its alphabet, with just as many `=` at its end as there
/// are bytes missing in the last group of three.
pub proof fn law_base64_alphabet(data: Seq<u8>)
    ensures
        forall|i: int|
            0 <= i < base64_of(data).len() ==> if i < base64_of(data).len() - base64_padding(
                data.len() as int,
            ) {
                base64_value(#[trigger] base64_of(data)[i]) is Some
            } else {
                base64_of(data)[i] == '='
            },
    decreases data.len(),
{
    law_base64_length(data);
    if data.len() == 0 {
    } else if data.len() <= 3 {
        lemma_group_is_read(data);
    } else {
        let head = data.take(3);
        let tail = data.skip(3);
        lemma_group_is_read(head);
        law_base64_alphabet(tail);
        law_base64_length(tail);
        let text = base64_of(data);
        assert(base64_padding(data.len() as int) == base64_padding(tail.len() as int));
        assert forall|i: int| 0 <= i < text.len() implies if i < text.len() - base64_padding(
            data.len() as int,
        ) {
            base64_value(#[trigger] text[i]) is Some
        } else {
            text[i] == '='
        } by {
            if i < 4 {
                assert(text[i] == base64_group(head)[i]);
            } else {
                assert(text[i] == base64_of(tail)[i - 4]);
            }
        }
    }
}

/// Whole groups of three bytes can be encoded apart from what follows them.
pub proof fn law_base64_groups_stand_alone(data: Seq<u8>, more: Seq<u8>)
    requires
        data.len() % 3 == 0,
    ensures
        base64_of(data + more) == base64_of(data) + base64_of(more),
    decreases data.len(),
{
    if data.len() == 0 {
        assert(data + more =~= more);
        assert(base64_of(data) + base64_of(more) =~= base64_of(more));
    } else {
        let whole = data + more;
        let head = data.take(3);
        let tail = data.skip(3);
        law_base64_groups_stand_alone(tail, more);
        assert(whole.take(3) =~= head);
        assert(whole.skip(3) =~= tail + more);
        if data.len() == 3 {
            assert(head =~= data);
            assert(tail =~= Seq::<u8>::empty());
            if more.len() == 0 {
                assert(whole =~= data);
                assert(base64_of(data) + base64_of(more) =~= base64_of(data));
            } else {
                assert(tail + more =~= more);
            }
        } else {
            assert(base64_of(data) + base64_of(more) =~= base64_group(head) + (base64_of(tail)
                + base64_of(more)));
        }
    }
}

/// A freed image was drawn longer ago than every image that stays without being
/// on screen; of two that were drawn in the same frame the one with the higher
/// id stays.
proof fn lemma_older_images_go(m: Map<u32, Placement>, frame: u64, gone: u32, stays: u32)
    requires
        m.dom().finite(),
        evicted(m, frame).contains(gone),
        kept(m, frame).contains_key(stays),
        m[stays].used < frame,
    ensures
        m[gone].used < m[stays].used || (m[gone].used == m[stays].used && gone < stays),
    decreases m.dom().len(),
{
    law_images_are_kept_or_freed(m, frame, gone);
    law_images_are_kept_or_freed(m, frame, stays);
    if must_evict(m, frame) {
        let first = choose|i: u32| is_oldest(m, frame, i);
        let fewer = m.remove(first);
        let rest = evicted(fewer, frame);
        assert(is_stale(m, frame, stays));
        assert(no_newer(m, first, stays));
        if gone != first {
            let all = seq![first] + rest;
            let j = choose|j: int| 0 <= j < all.len() && all[j] == gone;
            assert(rest[j - 1] == gone);
            law_images_are_kept_or_freed(fewer, frame, stays);
            law_images_are_kept_or_freed(fewer, frame, gone);
            lemma_older_images_go(fewer, frame, gone, stays);
        }
    }
}

/// Images are freed by age. What is freed was not drawn in the current frame,
/// and longer ago than what stays without having been; it goes in the order that
/// it was drawn in, and of two images drawn in the same frame the lower id goes
/// first.
pub proof fn law_images_are_freed_by_age(m: Map<u32, Placement>, frame: u64, i: int)
    requires
        m.dom().finite(),
        0 <= i < evicted(m, frame).len(),
    ensures
        m.contains_key(evicted(m, frame)[i]),
        m[evicted(m, frame)[i]].used < frame,
        forall|j: int|
            i < j < evicted(m, frame).len() ==> {
                let a = evicted(m, frame)[i];
                let b = #[trigger] evicted(m, frame)[j];
                m[a].used < m[b].used || (m[a].used == m[b].used && a < b)
            },
        forall|id: u32|
            #[trigger] kept(m, frame).contains_key(id) && m[id].used < frame ==> {
                let a = evicted(m, frame)[i];
                m[a].used < m[id].used || (m[a].used == m[id].used && a < id)
            },
{
    let gone = evicted(m, frame)[i];
    assert(evicted(m, frame).contains(gone));
    lemma_freed_are_stale(m, frame, gone);
    assert forall|j: int| i < j < evicted(m, frame).len() implies {
        let b = #[trigger] evicted(m, frame)[j];
        m[gone].used < m[b].used || (m[gone].used == m[b].used && gone < b)
    } by {
        law_the_oldest_goes_first(m, frame, i, j);
        lemma_freed_once(m, frame, i, j);
    }
    assert forall|id: u32|
        #[trigger] kept(m, frame).contains_key(id) && m[id].used < frame implies m[gone].used
        < m[id].used || (m[gone].used == m[id].used && gone < id) by {
        lemma_older_images_go(m, frame, gone, id);
    }
}

/// No image is freed twice.
proof fn lemma_freed_once(m: Map<u32, Placement>, frame: u64, i: int, j: int)
    requires
        m.dom().finite(),
        0 <= i < j < evicted(m, frame).len(),
    ensures
        evicted(m, frame)[i] != evicted(m, frame)[j],
    decreases m.dom().len(),
{
    if must_evict(m, frame) {
        let first = choose|k: u32| is_oldest(m, frame, k);
        let fewer = m.remove(first);
        let rest = evicted(fewer, frame);
        assert(evicted(m, frame)[j] == rest[j - 1]);
        assert(rest.contains(rest[j - 1]));
        law_images_are_kept_or_freed(fewer, frame, rest[j - 1]);
        if i > 0 {
            assert(evicted(m, frame)[i] == rest[i - 1]);
            lemma_freed_once(fewer, frame, i - 1, j - 1);
        }
    }
}

/// Four images stay loaded, and more only if they are on screen; nothing is
/// freed while there are no more than four.
pub proof fn law_four_images_stay_loaded(m: Map<u32, Placement>, frame: u64)
    requires
        m.dom().finite(),
    ensures
        m.dom().len() <= 4 ==> evicted(m, frame).len() == 0 && kept(m, frame) == m,
        m.dom().len() >= 4 ==> kept(m, frame).dom().len() >= 4,
        kept(m, frame).dom().len() > 4 ==> forall|id: u32|
            #[trigger] kept(m, frame).contains_key(id) ==> m[id].used >= frame,
{
    law_freeing_leaves_just_enough(m, frame);
    if kept(m, frame).dom().len() > 4 {
        assert forall|id: u32| #[trigger] kept(m, frame).contains_key(id) implies m[id].used
            >= frame by {
            law_images_are_kept_or_freed(m, frame, id);
            assert(!is_stale(kept(m, frame), frame, id));
        }
    }
}

/// An image that is placed counts as drawn in this frame, in the size that it is
/// placed in; every other image that stays is as it was.
pub proof fn law_placed_images_count_as_drawn(
    before: GraphicsState,
    after: GraphicsState,
    raster: Raster,
    cols: u16,
    rows: u16,
)
    requires
        before.placements@.dom().finite(),
        before.placed_by(after, raster, cols, rows),
    ensures
        after.mode == before.mode,
        after.frame == before.frame,
        after.window_px == before.window_px,
        after.placements@.contains_key(raster.id),
        after.placements@[raster.id].size == (cols, rows),
        after.placements@[raster.id].used == before.frame,
        forall|id: u32|
            id != raster.id && #[trigger] after.placements@.contains_key(id)
                ==> before.placements@.contains_key(id) && after.placements@[id]
                == before.placements@[id],
{
    let drawn = before.with_drawn(raster.id, (cols, rows));
    law_images_on_screen_are_kept(drawn, before.frame, raster.id);
    assert forall|id: u32| id != raster.id && #[trigger] after.placements@.contains_key(
        id,
    ) implies before.placements@.contains_key(id) && after.placements@[id]
        == before.placements@[id] by {
        law_images_are_kept_or_freed(drawn, before.frame, id);
    }
}

/// Placing an image that is loaded in that size sends nothing, and frees
/// nothing.
pub proof fn law_loaded_images_are_not_sent(
    before: GraphicsState,
    after: GraphicsState,
    raster: Raster,
    cols: u16,
    rows: u16,
)
    requires
        before.placed_by(after, raster, cols, rows),
        before.placements@.contains_key(raster.id),
        before.placements@[raster.id].size == (cols, rows),
    ensures
        after.pending == before.pending,
        forall|id: u32| #[trigger]
            before.placements@.contains_key(id) ==> after.placements@.contains_key(id),
{
}

/// Placing an image that is not loaded, or in another size, sends it once,
/// behind what is queued already; what follows frees images that are not loaded
/// any more.
pub proof fn law_other_images_are_sent_once(
    before: GraphicsState,
    after: GraphicsState,
    raster: Raster,
    cols: u16,
    rows: u16,
    i: int,
)
    requires
        before.placements@.dom().finite(),
        before.placed_by(after, raster, cols, rows),
        !before.placements@.contains_key(raster.id) || before.placements@[raster.id].size != (
            cols,
            rows,
        ),
    ensures
        after.pending@.len() > before.pending@.len(),
        0 <= i < before.pending@.len() ==> after.pending@[i]@ == before.pending@[i]@,
        i == before.pending@.len() ==> after.pending@[i]@ == transmit_text(
            raster.png@,
            raster.id,
            cols,
            rows,
        ),
        before.pending@.len() < i < after.pending@.len() ==> exists|id: u32|
            before.placements@.contains_key(id) && !after.placements@.contains_key(id)
                && after.pending@[i]@ == #[trigger] delete_text(id),
{
    let drawn = before.with_drawn(raster.id, (cols, rows));
    let gone = evicted(drawn, before.frame);
    lemma_queued(before.pending@, after.pending@, raster, cols, rows, gone, i);
    if before.pending@.len() < i < after.pending@.len() {
        let id = gone[i - before.pending@.len() - 1];
        assert(gone.contains(id));
        law_images_are_kept_or_freed(drawn, before.frame, id);
        law_images_on_screen_are_kept(drawn, before.frame, raster.id);
        assert(after.pending@[i]@ == delete_text(id));
    }
}

/// What is queued, one by one.
proof fn lemma_queued(
    before: Seq<String>,
    after: Seq<String>,
    raster: Raster,
    cols: u16,
    rows: u16,
    gone: Seq<u32>,
    i: int,
)
    requires
        text::texts(after) == text::texts(before).push(
            transmit_text(raster.png@, raster.id, cols, rows),
        ) + delete_texts(gone),
    ensures
        after.len() == before.len() + 1 + gone.len(),
        0 <= i < before.len() ==> after[i]@ == before[i]@,
        i == before.len() ==> after[i]@ == transmit_text(raster.png@, raster.id, cols, rows),
        before.len() < i < after.len() ==> after[i]@ == delete_text(gone[i - before.len() - 1]),
{
    let sent = transmit_text(raster.png@, raster.id, cols, rows);
    assert(text::texts(after).len() == after.len());
    assert(text::texts(before).len() == before.len());
    assert(delete_texts(gone).len() == gone.len());
    if 0 <= i < after.len() {
        assert(text::texts(after)[i] == after[i]@);
        if i < before.len() {
            assert(text::texts(before)[i] == before[i]@);
        } else if i > before.len() {
            assert(delete_texts(gone)[i - before.len() - 1] == delete_text(
                gone[i - before.len() - 1],
            ));
        }
    }
}

/// An image is transmitted by the path of its PNG, in base64, under its id and
/// with a placement of so many columns and rows; it is freed by its id.
pub proof fn law_escapes_name_the_image(png: Seq<u8>, id: u32, cols: u16, rows: u16)
    ensures
        transmit_text(png, id, cols, rows) == "\x1b_Ga=T,U=1,q=2,f=100,t=f,i="@ + text::decimal(
            id as nat,
        ) + ",c="@ + text::decimal(cols as nat) + ",r="@ + text::decimal(rows as nat) + ";"@
            + base64_of(encode_utf8(text::lossy_text(png))) + "\x1b\\"@,
        delete_text(id) == "\x1b_Ga=d,d=I,i="@ + text::decimal(id as nat) + ",q=2\x1b\\"@,
{
}

/// A terminal is known to draw images if its name has that of kitty or of
/// ghostty in it, and else not.
pub proof fn law_known_terminals_have_known_names(before: Seq<char>, behind: Seq<char>, name: Seq<
    char,
>)
    ensures
        known_terminal(before + "kitty"@ + behind),
        known_terminal(before + "ghostty"@ + behind),
        known_terminal(name) ==> exists|at: int, end: int|
            0 <= at <= end <= name.len() && (#[trigger] name.subrange(at, end) == "kitty"@
                || name.subrange(at, end) == "ghostty"@),
{
    text::law_text_stands_where_it_was_put(before, "kitty"@, behind, name, 0);
    text::law_text_stands_where_it_was_put(before, "ghostty"@, behind, name, 0);
    if known_terminal(name) {
        let word = if text::occurs(name, "kitty"@) {
            "kitty"@
        } else {
            "ghostty"@
        };
        let at = choose|at: int| text::stands_at(name, word, at);
        let end = at + word.len();
        assert(name.subrange(at, end) == word);
    }
}

/// The letters of base64: capitals, then small letters, then digits, and two
/// signs.
pub proof fn law_the_base64_alphabet(v: int)
    ensures
        0 <= v < 26 ==> base64_letter(v) as int == 'A' as int + v,
        26 <= v < 52 ==> base64_letter(v) as int == 'a' as int + (v - 26),
        52 <= v < 62 ==> base64_letter(v) as int == '0' as int + (v - 52),
        base64_letter(62) == '+',
        base64_letter(63) == '/',
{
}

} // verus!
