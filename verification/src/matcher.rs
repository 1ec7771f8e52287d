//! The fuzzy matcher behind a picker: `nucleo`'s worker, whose items are keys.
//!
//! The worker matches on threads of its own. What it has found is put into a
//! snapshot by [`tick`], and stays as it is until the next one.
use nucleo::pattern::{CaseMatching, Normalization};
use nucleo::{Config, Injector as ItemSink, Nucleo, Utf32String};
use vstd::prelude::*;
use crate::text;

verus! {

/// How many items a matcher has room for: there is no index for more.
pub const CAPACITY: u32 = 4294967263;

/// `nucleo::Nucleo`.
#[verifier::external_type_specification]
#[verifier::external_body]
#[verifier::reject_recursive_types(T)]
pub struct ExNucleo<T: Sync + Send + 'static>(Nucleo<T>);

/// `nucleo::Injector`, a handle through which items are added.
#[verifier::external_type_specification]
#[verifier::external_body]
#[verifier::reject_recursive_types(T)]
pub struct ExInjector<T>(ItemSink<T>);

/// `nucleo::Utf32String`, text in the form that is matched.
#[verifier::external_type_specification]
#[verifier::external_body]
pub struct ExUtf32String(Utf32String);

/// The keys in the snapshot, best match first.
pub uninterp spec fn matched(matcher: Nucleo<u64>) -> Seq<u64>;

/// How many items the snapshot was taken of.
pub uninterp spec fn item_total(matcher: Nucleo<u64>) -> u32;

/// The text that each matcher column was last given as its pattern.
pub uninterp spec fn patterns(matcher: Nucleo<u64>) -> Seq<Seq<char>>;

/// Whether the worker is configured for matching paths.
pub uninterp spec fn matches_paths(matcher: Nucleo<u64>) -> bool;

/// What is in the list of items that a matcher searches, and what will ever be
/// added to it: under each index a key, and the texts that its columns are
/// filled with by [`fill_columns`]. An index is given out once, and what stands
/// there stays. None of the calls below gives a matcher another list.
pub uninterp spec fn items(matcher: Nucleo<u64>) -> Map<u32, (u64, Seq<Seq<char>>)>;

/// The same of the list of items that a handle adds to.
pub uninterp spec fn items_of(sink: ItemSink<u64>) -> Map<u32, (u64, Seq<Seq<char>>)>;

/// Whether a handle to the matcher's list of items may be about, so that
/// anybody may add to it at any time.
pub uninterp spec fn shared(matcher: Nucleo<u64>) -> bool;

/// All that is in the matcher's list of items, in order, as long as the list is
/// not [`shared`].
pub uninterp spec fn contents(matcher: Nucleo<u64>) -> Seq<(u64, Seq<Seq<char>>)>;

/// Whether a key is added to a list of items, to be matched by the given
/// texts.
pub open spec fn offered(
    list: Map<u32, (u64, Seq<Seq<char>>)>,
    key: u64,
    texts: Seq<Seq<char>>,
) -> bool {
    exists|index: u32| #[trigger] list.contains_key(index) && list[index] == (key, texts)
}

/// Whether a key is added to a list of items.
pub open spec fn listed(list: Map<u32, (u64, Seq<Seq<char>>)>, key: u64) -> bool {
    exists|index: u32| #[trigger] list.contains_key(index) && list[index].0 == key
}

/// Whether two states of a matcher have the same list of items.
pub open spec fn same_list(a: Nucleo<u64>, b: Nucleo<u64>) -> bool {
    items(a) == items(b) && shared(a) == shared(b) && contents(a) == contents(b)
}

/// Whether a key is that of one of the given items.
pub open spec fn among(list: Seq<(u64, Seq<Seq<char>>)>, key: u64) -> bool {
    exists|j: int| 0 <= j < list.len() && (#[trigger] list[j]).0 == key
}

/// Whether every key in the snapshot is that of an item in the matcher's list.
pub open spec fn finds_listed(matcher: Nucleo<u64>) -> bool {
    forall|i: int|
        0 <= i < matched(matcher).len() ==> {
            let key = #[trigger] matched(matcher)[i];
            &&& listed(items(matcher), key)
            &&& !shared(matcher) ==> among(contents(matcher), key)
        }
}

/// `Nucleo::new`, with as many threads as the machine has and the default
/// configuration. The list of items is empty and nobody else's, the snapshot is
/// empty, and so is every pattern. `notify` is called, on any thread, when there
/// is something to [`tick`] for, and whenever an item is added, so it has to be
/// one that can always be called.
#[verifier::external_body]
pub(crate) fn new_matcher<F: Fn() + Sync + Send + 'static>(notify: F, columns: u32) -> (matcher: Nucleo<u64>)
    requires
        columns > 0,
        call_requires(notify, ()),
    ensures
        !shared(matcher),
        contents(matcher) == Seq::<(u64, Seq<Seq<char>>)>::empty(),
        matched(matcher) == Seq::<u64>::empty(),
        item_total(matcher) == 0,
        patterns(matcher) == Seq::new(columns as nat, |i: int| Seq::<char>::empty()),
        !matches_paths(matcher),
{
    Nucleo::new(Config::DEFAULT, std::sync::Arc::new(notify), None, columns)
}

/// `Snapshot::matched_item_count`.
#[verifier::external_body]
pub(crate) fn matched_item_count(matcher: &Nucleo<u64>) -> (count: u32)
    ensures
        count == matched(*matcher).len(),
{
    matcher.snapshot().matched_item_count()
}

/// `Snapshot::item_count`.
#[verifier::external_body]
pub(crate) fn item_count(matcher: &Nucleo<u64>) -> (count: u32)
    ensures
        count == item_total(*matcher),
{
    matcher.snapshot().item_count()
}

/// `Snapshot::get_matched_item`: the key at an index of the snapshot.
#[verifier::external_body]
pub(crate) fn get_matched_item(matcher: &Nucleo<u64>, n: u32) -> (key: Option<u64>)
    ensures
        key == (if n < matched(*matcher).len() {
            Some(matched(*matcher)[n as int])
        } else {
            None
        }),
{
    matcher.snapshot().get_matched_item(n).map(|item| *item.data)
}

/// `Snapshot::matched_items`: the keys in a range of the snapshot. It panics
/// on a range that the snapshot does not cover.
#[verifier::external_body]
pub(crate) fn matched_items(matcher: &Nucleo<u64>, start: u32, end: u32) -> (keys: Vec<u64>)
    requires
        start <= end <= matched(*matcher).len(),
    ensures
        keys@ == matched(*matcher).subrange(start as int, end as int),
{
    matcher.snapshot().matched_items(start..end).map(|item| *item.data).collect()
}

/// What [`tick`] reports.
pub struct Status {
    /// Whether the snapshot has changed.
    pub changed: bool,
    /// Whether the matcher is still processing in the background.
    pub running: bool,
}

/// `Nucleo::tick`: waits up to `timeout` milliseconds for the worker, and takes
/// over what it has found. What that is depends on how far the worker's
/// threads have come. It is found among the items of the list, and is no more
/// than the items that were looked at. A snapshot that is not reported as
/// changed is the old one, and the patterns, the configuration and the list of
/// items stay in any case.
#[verifier::external_body]
pub(crate) fn tick(matcher: &mut Nucleo<u64>, timeout: u64) -> (status: Status)
    ensures
        same_list(*final(matcher), *old(matcher)),
        patterns(*final(matcher)) == patterns(*old(matcher)),
        matches_paths(*final(matcher)) == matches_paths(*old(matcher)),
        finds_listed(*old(matcher)) ==> finds_listed(*final(matcher)),
        matched(*final(matcher)).len() <= item_total(*final(matcher)),
        !status.changed ==> matched(*final(matcher)) == matched(*old(matcher))
            && item_total(*final(matcher)) == item_total(*old(matcher)),
{
    let status = matcher.tick(timeout);
    Status { changed: status.changed, running: status.running }
}

/// `MultiPattern::reparse` of the matcher's pattern, with smart case and smart
/// normalization. `append` promises that the column's text only grew at its
/// end. The list of items stays, and the snapshot too until the next [`tick`].
#[verifier::external_body]
pub(crate) fn reparse(matcher: &mut Nucleo<u64>, column: usize, text: &str, append: bool)
    requires
        column < patterns(*old(matcher)).len(),
        append ==> text::starts_with(text@, patterns(*old(matcher))[column as int]),
    ensures
        same_list(*final(matcher), *old(matcher)),
        patterns(*final(matcher)) == patterns(*old(matcher)).update(column as int, text@),
        matches_paths(*final(matcher)) == matches_paths(*old(matcher)),
        matched(*final(matcher)) == matched(*old(matcher)),
        item_total(*final(matcher)) == item_total(*old(matcher)),
{
    matcher.pattern.reparse(column, text, CaseMatching::Smart, Normalization::Smart, append);
}

/// `Nucleo::update_config` with the configuration for matching paths. The list
/// of items, the snapshot and the patterns stay.
#[verifier::external_body]
pub(crate) fn match_paths(matcher: &mut Nucleo<u64>)
    ensures
        matches_paths(*final(matcher)),
        same_list(*final(matcher), *old(matcher)),
        patterns(*final(matcher)) == patterns(*old(matcher)),
        matched(*final(matcher)) == matched(*old(matcher)),
        item_total(*final(matcher)) == item_total(*old(matcher)),
{
    matcher.update_config(Config::DEFAULT.match_paths());
}

/// `Nucleo::active_injectors`: how many injectors are alive, on any thread.
#[verifier::external_body]
pub(crate) fn active_injectors(matcher: &Nucleo<u64>) -> (count: usize) {
    matcher.active_injectors()
}

/// `Nucleo::injector`: a handle to the matcher's own list of items, which is
/// [`shared`] from here on. Nothing else about the matcher changes.
#[verifier::external_body]
pub(crate) fn injector_of(matcher: &mut Nucleo<u64>) -> (injector: ItemSink<u64>)
    ensures
        items_of(injector) == items(*final(matcher)),
        items(*final(matcher)) == items(*old(matcher)),
        shared(*final(matcher)),
        patterns(*final(matcher)) == patterns(*old(matcher)),
        matches_paths(*final(matcher)) == matches_paths(*old(matcher)),
        matched(*final(matcher)) == matched(*old(matcher)),
        item_total(*final(matcher)) == item_total(*old(matcher)),
{
    matcher.injector()
}

/// `Clone::clone` of a `nucleo::Injector`: another handle to the same list of
/// items.
#[verifier::external_body]
pub(crate) fn another_sink(sink: &ItemSink<u64>) -> (other: ItemSink<u64>)
    ensures
        items_of(other) == items_of(*sink),
{
    sink.clone()
}

/// The characters of a text that `Utf32String::from` keeps for matching.
pub uninterp spec fn searched(text: Seq<char>) -> Seq<char>;

/// The characters in a matcher column.
pub uninterp spec fn column_chars(column: Utf32String) -> Seq<char>;

/// `Utf32String::from`: the text of one matcher column.
#[verifier::external_body]
pub(crate) fn column_text(text: &str) -> (column: Utf32String)
    ensures
        column_chars(column) == searched(text@),
{
    Utf32String::from(text)
}

/// Hands each matcher column its text; columns without one stay as they are.
pub fn fill_columns(columns: &mut [Utf32String], texts: &Vec<String>)
    ensures
        final(columns)@.len() == old(columns)@.len(),
        forall|i: int|
            0 <= i < final(columns)@.len() ==> column_chars(#[trigger] final(columns)@[i]) == (if i
                < texts@.len() {
                searched(texts@[i]@)
            } else {
                column_chars(old(columns)@[i])
            }),
{
    let mut i: usize = 0;
    while i < columns.len() && i < texts.len()
        invariant
            i <= texts@.len(),
            i <= columns@.len() == old(columns)@.len(),
            forall|j: int|
                0 <= j < i ==> column_chars(#[trigger] columns@[j]) == searched(texts@[j]@),
            forall|j: int| i <= j < columns@.len() ==> #[trigger] columns@[j] == old(columns)@[j],
        decreases columns@.len() - i,
    {
        columns[i] = column_text(texts[i].as_str());
        i += 1;
    }
}

/// `nucleo::Matcher`, which finds the matched characters of a single text.
#[verifier::external_type_specification]
#[verifier::external_body]
pub struct ExMatcher(nucleo::Matcher);

/// Which delimiters and bonuses a highlighter is configured with: the default
/// ones (`Some(false)`), or the default ones for paths (`Some(true)`). There is
/// nothing to tell of any others, nor of case and normalization, which every
/// pattern sets for itself.
pub uninterp spec fn setup(highlighter: nucleo::Matcher) -> Option<bool>;

/// `nucleo::Matcher::new` with the default configuration.
#[verifier::external_body]
pub(crate) fn new_highlighter() -> (highlighter: nucleo::Matcher)
    ensures
        setup(highlighter) == Some(false),
{
    nucleo::Matcher::new(Config::DEFAULT)
}

/// `Config::set_match_paths` of the highlighter's configuration.
#[verifier::external_body]
pub(crate) fn prefer_paths(highlighter: &mut nucleo::Matcher)
    requires
        setup(*old(highlighter)) == Some(false),
    ensures
        setup(*final(highlighter)) == Some(true),
{
    highlighter.config.set_match_paths();
}

/// The characters that `Pattern::indices` reports for the item at index `row`
/// of the snapshot, in one of its columns, against the pattern that the
/// snapshot was taken with.
pub uninterp spec fn match_positions(
    matcher: Nucleo<u64>,
    row: u32,
    column: usize,
    paths: bool,
) -> Seq<u32>;

/// `Pattern::indices` of a column's pattern on a snapshot item. The call writes
/// to the configuration how the pattern treats case and normalization, and
/// leaves the delimiters and bonuses; what else the highlighter holds is
/// scratch space.
#[verifier::external_body]
pub(crate) fn match_indices(
    matcher: &Nucleo<u64>,
    row: u32,
    column: usize,
    highlighter: &mut nucleo::Matcher,
) -> (indices: Vec<u32>)
    requires
        row < matched(*matcher).len(),
        column < patterns(*matcher).len(),
        setup(*old(highlighter)) is Some,
    ensures
        indices@ == match_positions(*matcher, row, column, setup(*old(highlighter)).unwrap()),
        setup(*final(highlighter)) == setup(*old(highlighter)),
{
    let snapshot = matcher.snapshot();
    let mut indices = Vec::new();
    let item = snapshot.get_matched_item(row).unwrap();
    let haystack = item.matcher_columns[column].slice(..);
    snapshot.pattern().column_pattern(column).indices(haystack, highlighter, &mut indices);
    indices
}

/// `nucleo::Injector::push`: adds a key that is matched by the given texts, and
/// gives the index under which it was added. That nothing else is added
/// meanwhile cannot be said of a list that is shared. Nor can it be known in
/// advance that there is room: other handles add to the list at any time, and
/// beyond [`CAPACITY`] the call panics.
#[verifier::external_body]
pub(crate) fn push_item(injector: &ItemSink<u64>, key: u64, texts: &Vec<String>) -> (index: u32)
    ensures
        items_of(*injector).contains_key(index),
        items_of(*injector)[index] == (key, text::texts(texts@)),
{
    injector.push(key, |_, columns| fill_columns(columns, texts))
}

/// `nucleo::Injector::push` through a handle to a list that is nobody else's;
/// the handle is gone when the call returns. Just this item is added, behind
/// all others. The snapshot, the patterns and the configuration stay.
#[verifier::external_body]
pub(crate) fn add_item(matcher: &mut Nucleo<u64>, key: u64, texts: &Vec<String>)
    requires
        !shared(*old(matcher)),
        contents(*old(matcher)).len() < CAPACITY,
    ensures
        !shared(*final(matcher)),
        contents(*final(matcher)) == contents(*old(matcher)).push((key, text::texts(texts@))),
        items(*final(matcher)) == items(*old(matcher)),
        offered(items(*final(matcher)), key, text::texts(texts@)),
        patterns(*final(matcher)) == patterns(*old(matcher)),
        matches_paths(*final(matcher)) == matches_paths(*old(matcher)),
        matched(*final(matcher)) == matched(*old(matcher)),
        item_total(*final(matcher)) == item_total(*old(matcher)),
{
    matcher.injector().push(key, |_, columns| fill_columns(columns, texts));
}

/// An item that was added is listed under its key, whatever its texts.
pub proof fn law_added_items_are_listed(
    list: Map<u32, (u64, Seq<Seq<char>>)>,
    index: u32,
    key: u64,
    texts: Seq<Seq<char>>,
)
    requires
        list.contains_key(index),
        list[index] == (key, texts),
    ensures
        offered(list, key, texts),
        listed(list, key),
{
}

/// What was never added is not listed.
pub proof fn law_nothing_else_is_listed(
    list: Map<u32, (u64, Seq<Seq<char>>)>,
    key: u64,
    texts: Seq<Seq<char>>,
)
    ensures
        (forall|index: u32| #[trigger] list.contains_key(index) ==> list[index].0 != key)
            ==> !listed(list, key),
        (forall|index: u32|
            #[trigger] list.contains_key(index) ==> list[index].0 != key || list[index].1 != texts)
            ==> !offered(list, key, texts),
{
}

} // verus!
