//! Small text routines: comparing, searching, numbers written out, and what
//! the standard library and the Unicode crates know about text.
use vstd::prelude::*;
use vstd::string::*;
use vstd::utf8::*;

verus! {

/// `String::push`: the character is appended, nothing else changes.
pub assume_specification[ String::push ](s: &mut String, c: char)
    ensures
        final(s)@ == old(s)@.push(c),
;

/// What `String::from_utf8_lossy` makes of some bytes.
pub uninterp spec fn lossy_text(bytes: Seq<u8>) -> Seq<char>;

/// `String::from_utf8_lossy`. Of valid UTF-8 the result is the text that was
/// encoded. The replacement of invalid sequences is only named; each becomes
/// one character, so there are never more characters than bytes.
#[verifier::external_body]
pub(crate) fn to_lossy(bytes: &[u8]) -> (text: String)
    ensures
        text@ == lossy_text(bytes@),
        valid_utf8(bytes@) ==> text@ == decode_utf8(bytes@),
        text@.len() <= bytes@.len(),
{
    String::from_utf8_lossy(bytes).into_owned()
}

/// `std::str::from_utf8`: succeeds on valid UTF-8 only, and then gives the text
/// that the bytes encode.
#[verifier::external_body]
pub(crate) fn as_text(bytes: &[u8]) -> (text: Option<&str>)
    ensures
        text is Some <==> valid_utf8(bytes@),
        text matches Some(t) ==> t@ == decode_utf8(bytes@),
{
    std::str::from_utf8(bytes).ok()
}

/// What `str::to_lowercase` makes of some text.
pub uninterp spec fn lowercase(text: Seq<char>) -> Seq<char>;

/// The lower-case form of one ASCII character; any other is left alone.
pub open spec fn ascii_lower(c: char) -> char {
    if 'A' <= c <= 'Z' {
        ((c as u32 + 32) as u8) as char
    } else {
        c
    }
}

/// `str::to_lowercase`. On ASCII text each letter is lowered on its own; the
/// Unicode mapping of other text is only named.
#[verifier::external_body]
pub(crate) fn to_lowercase(text: &str) -> (lowered: String)
    ensures
        lowered@ == lowercase(text@),
        is_ascii_chars(text@) ==> lowered@ == text@.map_values(|c: char| ascii_lower(c)),
{
    text.to_lowercase()
}

/// The texts of a list of strings.
pub open spec fn texts(list: Seq<String>) -> Seq<Seq<char>> {
    list.map_values(|s: String| s@)
}

/// Texts put one behind the other.
pub open spec fn concatenated(list: Seq<Seq<char>>) -> Seq<char>
    decreases list.len(),
{
    if list.len() == 0 {
        Seq::<char>::empty()
    } else {
        concatenated(list.drop_last()) + list.last()
    }
}

/// How many terminal columns `unicode-width` says that a text takes.
pub uninterp spec fn display_width(text: Seq<char>) -> usize;

/// `UnicodeWidthStr::width` of the `unicode-width` crate.
#[verifier::external_body]
pub(crate) fn width_of(text: &str) -> (width: usize)
    ensures
        width == display_width(text@),
{
    unicode_width::UnicodeWidthStr::width(text)
}

/// The extended grapheme clusters that `unicode-segmentation` cuts a text into.
pub uninterp spec fn clusters(text: Seq<char>) -> Seq<Seq<char>>;

/// `UnicodeSegmentation::graphemes` of the `unicode-segmentation` crate, for
/// extended clusters. The clusters are not empty, and one behind the other they
/// make up the text.
#[verifier::external_body]
pub(crate) fn graphemes(text: &str) -> (list: Vec<String>)
    ensures
        texts(list@) == clusters(text@),
        concatenated(texts(list@)) == text@,
        forall|i: int| 0 <= i < list@.len() ==> (#[trigger] list@[i])@.len() > 0,
{
    unicode_segmentation::UnicodeSegmentation::graphemes(text, true).map(String::from).collect()
}

/// The characters of a text, one by one.
pub fn chars_of(text: &str) -> (chars: Vec<char>)
    ensures
        chars@ == text@,
{
    let mut chars: Vec<char> = Vec::new();
    for c in it: text.chars()
        invariant
            it.seq() == text@,
            chars@ == it.seq().take(it.index()),
    {
        chars.push(c);
    }
    assert(text@.take(text@.len() as int) =~= text@);
    chars
}

/// Appends characters to a text.
pub fn push_chars(out: &mut String, chars: &[char])
    ensures
        final(out)@ == old(out)@ + chars@,
{
    let mut i: usize = 0;
    assert(chars@.take(0) =~= Seq::<char>::empty());
    while i < chars.len()
        invariant
            i <= chars@.len(),
            out@ == old(out)@ + chars@.take(i as int),
        decreases chars@.len() - i,
    {
        out.push(chars[i]);
        assert(chars@.take(i + 1) =~= chars@.take(i as int).push(chars@[i as int]));
        i += 1;
    }
    assert(chars@.take(chars@.len() as int) =~= chars@);
}

/// Whether two texts are equal.
pub fn same_text(a: &str, b: &str) -> (same: bool)
    ensures
        same == (a@ == b@),
{
    let a: Vec<char> = chars_of(a);
    let b: Vec<char> = chars_of(b);
    if a.len() != b.len() {
        return false;
    }
    begins_with(a.as_slice(), b.as_slice(), 0)
}

/// Whether `needle` stands at index `at` of `hay`.
pub open spec fn stands_at(hay: Seq<char>, needle: Seq<char>, at: int) -> bool {
    0 <= at && at + needle.len() <= hay.len() && hay.subrange(at, at + needle.len()) == needle
}

/// Whether `needle` occurs somewhere in `hay`.
pub open spec fn occurs(hay: Seq<char>, needle: Seq<char>) -> bool {
    exists|at: int| stands_at(hay, needle, at)
}

/// Whether `hay` starts with `needle`.
pub open spec fn starts_with(hay: Seq<char>, needle: Seq<char>) -> bool {
    stands_at(hay, needle, 0)
}

/// Whether `needle` stands at index `at` of `hay`.
pub fn begins_with(hay: &[char], needle: &[char], at: usize) -> (yes: bool)
    ensures
        yes == stands_at(hay@, needle@, at as int),
        at == 0 && hay@.len() == needle@.len() ==> yes == (hay@ == needle@),
{
    if needle.len() > hay.len() || at > hay.len() - needle.len() {
        return false;
    }
    let ghost window = hay@.subrange(at as int, at + needle@.len());
    assert(at == 0 && hay@.len() == needle@.len() ==> window =~= hay@);
    let len: usize = hay.len();
    let mut i: usize = 0;
    while i < needle.len()
        invariant
            i <= needle@.len(),
            at + needle@.len() <= hay@.len() == len,
            window == hay@.subrange(at as int, at + needle@.len()),
            forall|j: int| 0 <= j < i ==> window[j] == needle@[j],
        decreases needle@.len() - i,
    {
        assert(window[i as int] == hay@[at + i]);
        if hay[at + i] != needle[i] {
            return false;
        }
        i += 1;
    }
    assert(window =~= needle@);
    true
}

/// Whether `needle` occurs somewhere in `hay`.
pub fn contains(hay: &str, needle: &str) -> (yes: bool)
    ensures
        yes == occurs(hay@, needle@),
{
    let chars: Vec<char> = chars_of(hay);
    let wanted: Vec<char> = chars_of(needle);
    let mut at: usize = 0;
    while at < chars.len()
        invariant
            chars@ == hay@,
            wanted@ == needle@,
            at <= chars@.len(),
            forall|j: int| 0 <= j < at ==> !stands_at(hay@, needle@, j),
        decreases chars@.len() - at,
    {
        if begins_with(chars.as_slice(), wanted.as_slice(), at) {
            return true;
        }
        at += 1;
    }
    begins_with(chars.as_slice(), wanted.as_slice(), at)
}

/// The character of a decimal digit.
pub open spec fn digit(d: nat) -> char {
    ((48 + d) as u8) as char
}

/// A number written in decimal, without leading zeros.
pub open spec fn decimal(n: nat) -> Seq<char>
    decreases n,
{
    if n < 10 {
        seq![digit(n)]
    } else {
        decimal(n / 10).push(digit(n % 10))
    }
}

/// Appends a number in decimal.
pub fn push_decimal(out: &mut String, n: u64)
    ensures
        final(out)@ == old(out)@ + decimal(n as nat),
    decreases n,
{
    if n >= 10 {
        push_decimal(out, n / 10);
    }
    out.push((48u8 + (n % 10) as u8) as char);
    assert(out@ =~= old(out)@ + decimal(n as nat));
}

/// The number that decimal digits stand for.
pub open spec fn digits_value(digits: Seq<char>) -> int
    decreases digits.len(),
{
    if digits.len() == 0 {
        0
    } else {
        digits_value(digits.drop_last()) * 10 + (digits.last() as int - 48)
    }
}

/// A number in decimal reads as the number: it is made of digits, their value
/// is the number, and no zero leads.
pub proof fn law_decimals_read_as_their_number(n: nat)
    ensures
        digits_value(decimal(n)) == n,
        decimal(n).len() > 0,
        forall|i: int| 0 <= i < decimal(n).len() ==> '0' <= #[trigger] decimal(n)[i] <= '9',
        n > 0 ==> decimal(n)[0] != '0',
    decreases n,
{
    reveal_with_fuel(digits_value, 2);
    if n >= 10 {
        law_decimals_read_as_their_number(n / 10);
        assert(decimal(n).drop_last() =~= decimal(n / 10));
        assert(digits_value(decimal(n)) == digits_value(decimal(n / 10)) * 10 + (digit(
            n % 10,
        ) as int - 48));
    } else {
        assert(seq![digit(n)].drop_last() =~= Seq::<char>::empty());
        assert(digits_value(Seq::<char>::empty()) == 0);
    }
}

/// Text stands where it was put, and where it stands the characters are its
/// own.
pub proof fn law_text_stands_where_it_was_put(
    before: Seq<char>,
    needle: Seq<char>,
    behind: Seq<char>,
    hay: Seq<char>,
    at: int,
)
    ensures
        stands_at(before + needle + behind, needle, before.len() as int),
        occurs(before + needle + behind, needle),
        starts_with(needle + behind, needle),
        stands_at(hay, needle, at) ==> 0 <= at && at + needle.len() <= hay.len() && forall|i: int|
            0 <= i < needle.len() ==> hay[at + i] == #[trigger] needle[i],
        starts_with(hay, needle) ==> hay == needle + hay.skip(needle.len() as int),
        occurs(hay, needle) ==> exists|from: int|
            0 <= from && from + needle.len() <= hay.len() && #[trigger] hay.subrange(
                from,
                from + needle.len(),
            ) == needle,
{
    let whole = before + needle + behind;
    assert(whole.subrange(before.len() as int, (before.len() + needle.len()) as int) =~= needle);
    assert(stands_at(whole, needle, before.len() as int));
    assert((needle + behind).subrange(0, needle.len() as int) =~= needle);
    if stands_at(hay, needle, at) {
        assert forall|i: int| 0 <= i < needle.len() implies hay[at + i] == #[trigger] needle[i] by {
            assert(hay.subrange(at, at + needle.len())[i] == needle[i]);
        }
    }
    if starts_with(hay, needle) {
        assert(hay =~= hay.subrange(0, needle.len() as int) + hay.skip(needle.len() as int));
    }
    if occurs(hay, needle) {
        let from = choose|from: int| stands_at(hay, needle, from);
        assert(hay.subrange(from, from + needle.len()) == needle);
    }
}

/// Texts put one behind the other keep their order: a text alone is itself, and
/// two lists give the one behind the other.
pub proof fn law_concatenation_keeps_the_order(
    text: Seq<char>,
    a: Seq<Seq<char>>,
    b: Seq<Seq<char>>,
)
    ensures
        concatenated(seq![text]) == text,
        concatenated(a + b) == concatenated(a) + concatenated(b),
    decreases b.len(),
{
    reveal_with_fuel(concatenated, 2);
    assert(seq![text].drop_last() =~= Seq::<Seq<char>>::empty());
    assert(concatenated(seq![text]) =~= text);
    if b.len() == 0 {
        assert(a + b =~= a);
        assert(concatenated(a + b) =~= concatenated(a) + concatenated(b));
    } else {
        law_concatenation_keeps_the_order(text, a, b.drop_last());
        assert((a + b).drop_last() =~= a + b.drop_last());
        assert(concatenated(a + b) =~= concatenated(a) + concatenated(b));
    }
}

/// Lowering moves the letters from `A` to `Z` on to those from `a` to `z`, and
/// nothing else.
pub proof fn law_lowering_is_for_capitals(c: char)
    ensures
        'A' <= c <= 'Z' ==> ascii_lower(c) as int == c as int + 32,
        !('A' <= c <= 'Z') ==> ascii_lower(c) == c,
{
}

/// A list of strings is seen text by text.
pub proof fn law_texts_are_seen_as_they_are(list: Seq<String>, i: int)
    requires
        0 <= i < list.len(),
    ensures
        texts(list).len() == list.len(),
        texts(list)[i] == list[i]@,
{
}

} // verus!
