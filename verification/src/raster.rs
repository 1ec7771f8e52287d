//! Turning images and PDF pages into PNGs with the tools that are at hand.
//!
//! The tools are run elsewhere: what to run next follows from how the ones
//! before fared.
use vstd::prelude::*;
use vstd::string::*;
use vstd::utf8::*;
use crate::media::Raster;
use crate::path;
use crate::path::FilePath;
use crate::text;

verus! {

/// Why there is no raster.
pub enum RasterError {
    /// The file ended within the PNG header.
    ShortHeader,
    /// The file does not start as a PNG does.
    NotPng,
    /// No converter for images is installed.
    NoConverter,
    /// A converter failed, for the reason given.
    Converting(String),
    /// `pdftoppm` is not installed.
    NoPdfTool,
    /// `pdftoppm` failed, for the reason given.
    Rasterizing(String),
    /// `pdftoppm` ran and left nothing: the document ends before the
    /// (zero-based) page.
    NoSuchPage { page: usize, source: FilePath },
}

impl RasterError {
    /// The error in words.
    pub open spec fn text(self) -> Seq<char> {
        match self {
            RasterError::ShortHeader => "reading PNG header"@,
            RasterError::NotPng => "not a PNG file"@,
            RasterError::NoConverter =>
            "no image converter found (need `magick`, `convert`, or `sips`)"@,
            RasterError::Converting(_) => "converting image to PNG"@,
            RasterError::NoPdfTool => "`pdftoppm` (poppler) is required to render PDFs"@,
            RasterError::Rasterizing(_) => "rasterizing PDF page"@,
            RasterError::NoSuchPage { page, source } => "no page "@ + text::decimal(
                (page + 1) as nat,
            ) + " in "@ + text::lossy_text(source@),
        }
    }

    /// The error in words.
    pub fn message(&self) -> (message: String)
        requires
            self matches RasterError::NoSuchPage { page, .. } ==> page < usize::MAX,
        ensures
            message@ == self.text(),
    {
        match self {
            RasterError::ShortHeader => "reading PNG header".to_string(),
            RasterError::NotPng => "not a PNG file".to_string(),
            RasterError::NoConverter =>
            "no image converter found (need `magick`, `convert`, or `sips`)".to_string(),
            RasterError::Converting(_) => "converting image to PNG".to_string(),
            RasterError::NoPdfTool => "`pdftoppm` (poppler) is required to render PDFs".to_string(),
            RasterError::Rasterizing(_) => "rasterizing PDF page".to_string(),
            RasterError::NoSuchPage { page, source } => {
                let mut out: String = String::new();
                out.append("no page ");
                text::push_decimal(&mut out, (*page + 1) as u64);
                out.append(" in ");
                out.append(source.display().as_str());
                assert(out@ =~= self.text());
                out
            },
        }
    }
}

/// The character of a hexadecimal digit.
pub open spec fn hex_digit(d: nat) -> char {
    if d < 10 {
        ((48 + d) as u8) as char
    } else {
        ((87 + d) as u8) as char
    }
}

/// The last digits of a number in hexadecimal.
pub open spec fn hex(n: nat, digits: nat) -> Seq<char>
    decreases digits,
{
    if digits == 0 {
        Seq::<char>::empty()
    } else {
        hex(n / 16, (digits - 1) as nat).push(hex_digit(n % 16))
    }
}

/// Appends the last digits of a number in hexadecimal.
fn push_hex(out: &mut String, n: u64, digits: u8)
    ensures
        final(out)@ == old(out)@ + hex(n as nat, digits as nat),
    decreases digits,
{
    if digits > 0 {
        push_hex(out, n / 16, digits - 1);
        let d: u8 = (n % 16) as u8;
        out.push(if d < 10 { (48u8 + d) as char } else { (87u8 + d) as char });
    }
    assert(out@ =~= old(out)@ + hex(n as nat, digits as nat));
}

/// Where the raster of a page is kept.
pub struct CacheSlot {
    pub png: FilePath,
    /// The path without its extension.
    pub prefix: FilePath,
    /// The id of the image: it fits a color, and is not zero.
    pub id: u32,
}

/// Where the raster of a page is kept below a directory. `hash` tells the
/// page from others.
pub fn cache_slot(dir: &FilePath, hash: u64) -> (slot: CacheSlot)
    ensures
        slot.png@ == path::joined(dir@, encode_utf8(hex(hash as nat, 16) + ".png"@)),
        slot.prefix@ == path::joined(dir@, encode_utf8(hex(hash as nat, 16))),
        slot.id == (if hash % 0x100_0000 == 0 {
            1
        } else {
            hash % 0x100_0000
        }),
        1 <= slot.id <= 0xFF_FFFF,
{
    let mut name: String = String::new();
    push_hex(&mut name, hash, 16);
    assert(name@ =~= hex(hash as nat, 16));
    let prefix: FilePath = dir.join(&FilePath::from_text(name.as_str()));
    name.append(".png");
    let png: FilePath = dir.join(&FilePath::from_text(name.as_str()));
    let low: u32 = (hash % 0x100_0000) as u32;
    CacheSlot { png, prefix, id: if low == 0 { 1 } else { low } }
}

/// Four bytes as a number, the most significant first.
pub open spec fn big_endian(bytes: Seq<u8>, at: int) -> int {
    bytes[at] * 0x100_0000 + bytes[at + 1] * 0x1_0000 + bytes[at + 2] * 0x100 + bytes[at + 3]
}

/// Whether bytes start as a PNG does: with its signature, and then an `IHDR`
/// chunk.
pub open spec fn starts_as_png(head: Seq<u8>) -> bool {
    &&& head.subrange(0, 8) == seq![0x89u8, 0x50, 0x4E, 0x47, 0x0D, 0x0A, 0x1A, 0x0A]
    &&& head.subrange(12, 16) == seq![0x49u8, 0x48, 0x44, 0x52]
}

/// Four bytes as a number, the most significant first.
fn number_at(bytes: &[u8], at: usize) -> (n: u32)
    requires
        at + 4 <= bytes@.len(),
    ensures
        n == big_endian(bytes@, at as int),
{
    bytes[at] as u32 * 0x100_0000 + bytes[at + 1] as u32 * 0x1_0000 + bytes[at + 2] as u32 * 0x100
        + bytes[at + 3] as u32
}

/// The width and height of a PNG, from its first bytes: they stand in the
/// `IHDR` chunk.
pub fn png_dimensions(head: &[u8]) -> (size: Result<(u32, u32), RasterError>)
    ensures
        head@.len() < 24 ==> size == Err::<(u32, u32), RasterError>(RasterError::ShortHeader),
        head@.len() >= 24 && !starts_as_png(head@) ==> size == Err::<(u32, u32), RasterError>(
            RasterError::NotPng,
        ),
        head@.len() >= 24 && starts_as_png(head@) ==> (size matches Ok(px) && px.0 == big_endian(
            head@,
            16,
        ) && px.1 == big_endian(head@, 20)),
{
    if head.len() < 24 {
        return Err(RasterError::ShortHeader);
    }
    let signature: [u8; 8] = [0x89, 0x50, 0x4E, 0x47, 0x0D, 0x0A, 0x1A, 0x0A];
    let chunk: [u8; 4] = [0x49, 0x48, 0x44, 0x52];
    assert(signature@ =~= seq![0x89u8, 0x50, 0x4E, 0x47, 0x0D, 0x0A, 0x1A, 0x0A]);
    assert(chunk@ =~= seq![0x49u8, 0x48, 0x44, 0x52]);
    if !path::same_bytes(vstd::slice::slice_subrange(head, 0, 8), &signature) || !path::same_bytes(
        vstd::slice::slice_subrange(head, 12, 16),
        &chunk,
    ) {
        return Err(RasterError::NotPng);
    }
    Ok((number_at(head, 16), number_at(head, 20)))
}

/// How running a tool went.
pub enum ToolRun {
    /// It is not installed.
    NotFound,
    /// It could not be run, for the reason given.
    NotRun(String),
    /// It ran to its end.
    Exited { success: bool, stderr: Vec<u8> },
}

/// What came of a tool.
pub enum ToolResult {
    /// It is not installed: the next one may be.
    Missing,
    Failed(String),
    Done,
}

/// The characters that count as white space.
pub open spec fn is_white(c: char) -> bool {
    '\u{9}' <= c <= '\u{d}' || c == ' ' || c == '\u{85}' || c == '\u{a0}' || c == '\u{1680}'
        || '\u{2000}' <= c <= '\u{200a}' || c == '\u{2028}' || c == '\u{2029}' || c == '\u{202f}' || c
        == '\u{205f}' || c == '\u{3000}'
}

/// Text without white space at its end.
pub open spec fn trimmed_end(s: Seq<char>) -> Seq<char>
    decreases s.len(),
{
    if s.len() > 0 && is_white(s.last()) {
        trimmed_end(s.drop_last())
    } else {
        s
    }
}

/// Text without white space at either end.
pub open spec fn trimmed(s: Seq<char>) -> Seq<char>
    decreases s.len(),
{
    if s.len() > 0 && is_white(s[0]) {
        trimmed(s.skip(1))
    } else {
        trimmed_end(s)
    }
}

/// Whether a character counts as white space.
fn white(c: char) -> (yes: bool)
    ensures
        yes == is_white(c),
{
    ('\u{9}' <= c && c <= '\u{d}') || c == ' ' || c == '\u{85}' || c == '\u{a0}' || c == '\u{1680}'
        || ('\u{2000}' <= c && c <= '\u{200a}') || c == '\u{2028}' || c == '\u{2029}' || c
        == '\u{202f}' || c == '\u{205f}' || c == '\u{3000}'
}

/// The part of some characters without white space at either end.
pub fn trim(chars: &[char]) -> (part: &[char])
    ensures
        part@ == trimmed(chars@),
{
    let mut start: usize = 0;
    let len: usize = chars.len();
    assert(chars@.skip(0) =~= chars@);
    while start < len && white(chars[start])
        invariant
            start <= len == chars@.len(),
            trimmed(chars@) == trimmed(chars@.skip(start as int)),
        decreases len - start,
    {
        assert(chars@.skip(start as int).skip(1) =~= chars@.skip(start + 1));
        start += 1;
    }
    let mut end: usize = len;
    assert(chars@.subrange(start as int, end as int) =~= chars@.skip(start as int));
    while end > start && white(chars[end - 1])
        invariant
            start <= end <= len == chars@.len(),
            trimmed(chars@) == trimmed_end(chars@.subrange(start as int, end as int)),
        decreases end - start,
    {
        assert(chars@.subrange(start as int, end as int).drop_last() =~= chars@.subrange(
            start as int,
            end - 1,
        ));
        end -= 1;
    }
    vstd::slice::slice_subrange(chars, start, end)
}

/// The reason that a failed tool gives, by what it said.
pub open spec fn failure_text(tool: Seq<char>, said: Seq<char>) -> Seq<char> {
    "`"@ + tool + "` failed: "@ + trimmed(said)
}

/// The reason that a failed tool gives, by what it said.
pub fn failure_message(tool: &str, said: &str) -> (reason: String)
    ensures
        reason@ == failure_text(tool@, said@),
{
    let chars: Vec<char> = text::chars_of(said);
    let mut reason: String = String::new();
    reason.append("`");
    reason.append(tool);
    reason.append("` failed: ");
    text::push_chars(&mut reason, trim(chars.as_slice()));
    assert(reason@ =~= failure_text(tool@, said@));
    reason
}

/// What came of running a tool.
pub fn try_tool(tool: &str, run: ToolRun) -> (result: ToolResult)
    ensures
        match run {
            ToolRun::NotFound => result is Missing,
            ToolRun::NotRun(reason) => result == ToolResult::Failed(reason),
            ToolRun::Exited { success, stderr } => if success {
                result is Done
            } else {
                result matches ToolResult::Failed(reason) && reason@ == failure_text(
                    tool@,
                    text::lossy_text(stderr@),
                )
            },
        },
{
    match run {
        ToolRun::NotFound => ToolResult::Missing,
        ToolRun::NotRun(reason) => ToolResult::Failed(reason),
        ToolRun::Exited { success, stderr } => {
            if success {
                return ToolResult::Done;
            }
            let said: String = text::to_lossy(stderr.as_slice());
            ToolResult::Failed(failure_message(tool, said.as_str()))
        },
    }
}

/// A tool that converts images.
#[derive(Debug, Clone, Copy, PartialEq, Eq, Structural)]
pub enum Converter {
    Magick,
    Convert,
    Sips,
}

/// A tool with its arguments.
pub struct ToolCall {
    pub tool: &'static str,
    pub args: Vec<Vec<u8>>,
}

/// Whether a call is of the given tool, with the given arguments.
pub open spec fn calls(call: ToolCall, tool: Seq<char>, args: Seq<Seq<u8>>) -> bool {
    call.tool@ == tool && path::pieces_view(call.args@) == args
}

/// Bytes of text.
fn bytes_of(text: &str) -> (bytes: Vec<u8>)
    ensures
        bytes@ == encode_utf8(text@),
{
    path::copy_bytes(text.as_bytes())
}

/// The source as ImageMagick takes it: `[0]` selects the first frame of
/// animated formats.
pub open spec fn first_frame(source: Seq<u8>) -> Seq<u8> {
    source + encode_utf8("[0]"@)
}

/// How a converter is called.
pub open spec fn conversion(converter: Converter, source: Seq<u8>, cache: Seq<u8>) -> (
    Seq<char>,
    Seq<Seq<u8>>,
) {
    match converter {
        Converter::Magick => ("magick"@, seq![first_frame(source), cache]),
        Converter::Convert => ("convert"@, seq![first_frame(source), cache]),
        Converter::Sips => (
            "sips"@,
            seq![
                encode_utf8("-s"@),
                encode_utf8("format"@),
                encode_utf8("png"@),
                source,
                encode_utf8("--out"@),
                cache,
            ],
        ),
    }
}

/// How a converter is called to make a PNG of an image.
pub fn conversion_call(converter: Converter, source: &FilePath, cache: &FilePath) -> (call: ToolCall)
    ensures
        calls(
            call,
            conversion(converter, source@, cache@).0,
            conversion(converter, source@, cache@).1,
        ),
{
    let mut args: Vec<Vec<u8>> = Vec::new();
    let target: Vec<u8> = path::copy_bytes(cache.bytes.as_slice());
    let mut image: Vec<u8> = path::copy_bytes(source.bytes.as_slice());
    let tool: &'static str = match converter {
        Converter::Magick => "magick",
        Converter::Convert => "convert",
        Converter::Sips => "sips",
    };
    match converter {
        Converter::Magick | Converter::Convert => {
            let mut frame: Vec<u8> = bytes_of("[0]");
            image.append(&mut frame);
            args.push(image);
            args.push(target);
        },
        Converter::Sips => {
            args.push(bytes_of("-s"));
            args.push(bytes_of("format"));
            args.push(bytes_of("png"));
            args.push(image);
            args.push(bytes_of("--out"));
            args.push(target);
        },
    }
    assert(path::pieces_view(args@) =~= conversion(converter, source@, cache@).1);
    ToolCall { tool, args }
}

/// What to do about an image that has no PNG yet.
pub enum ConversionStep {
    /// Run a converter.
    Run(Converter),
    /// The PNG is there.
    Done,
    Failed(RasterError),
}

/// The converter that is tried after another.
pub open spec fn next_converter(converter: Converter) -> Option<Converter> {
    match converter {
        Converter::Magick => Some(Converter::Convert),
        Converter::Convert => Some(Converter::Sips),
        Converter::Sips => None,
    }
}

/// What to do about an image that has no PNG yet. `last` is the converter
/// that was run last, if any was, with what came of it: only a missing one
/// makes way for the next.
pub fn conversion_step(last: Option<(Converter, ToolResult)>) -> (step: ConversionStep)
    ensures
        match last {
            None => step == ConversionStep::Run(Converter::Magick),
            Some((_, ToolResult::Done)) => step == ConversionStep::Done,
            Some((_, ToolResult::Failed(reason))) => step == ConversionStep::Failed(
                RasterError::Converting(reason),
            ),
            Some((converter, ToolResult::Missing)) => match next_converter(converter) {
                Some(next) => step == ConversionStep::Run(next),
                None => step == ConversionStep::Failed(RasterError::NoConverter),
            },
        },
{
    match last {
        None => ConversionStep::Run(Converter::Magick),
        Some((converter, result)) => match result {
            ToolResult::Done => ConversionStep::Done,
            ToolResult::Failed(reason) => ConversionStep::Failed(RasterError::Converting(reason)),
            ToolResult::Missing => match converter {
                Converter::Magick => ConversionStep::Run(Converter::Convert),
                Converter::Convert => ConversionStep::Run(Converter::Sips),
                Converter::Sips => ConversionStep::Failed(RasterError::NoConverter),
            },
        },
    }
}

/// Whether an extension is `png` in some case.
pub open spec fn is_png_extension(ext: Seq<u8>) -> bool {
    &&& ext.len() == 3
    &&& ext[0] == 0x70 || ext[0] == 0x50
    &&& ext[1] == 0x6E || ext[1] == 0x4E
    &&& ext[2] == 0x67 || ext[2] == 0x47
}

/// Whether an image is taken as it is, by its extension: a PNG needs no
/// conversion.
pub fn is_png(source: &FilePath) -> (yes: bool)
    ensures
        yes == (path::extension_of(source@) matches Some(ext) && is_png_extension(ext)),
{
    match source.extension() {
        Some(ext) => ext.len() == 3 && (ext[0] == 0x70 || ext[0] == 0x50) && (ext[1] == 0x6E
            || ext[1] == 0x4E) && (ext[2] == 0x67 || ext[2] == 0x47),
        None => false,
    }
}

/// How `pdftoppm` is called to rasterize a page. It appends the extension to
/// the prefix itself.
pub open spec fn pdf_args(source: Seq<u8>, prefix: Seq<u8>, page: int) -> Seq<Seq<u8>> {
    let number = encode_utf8(text::decimal((page + 1) as nat));
    seq![
        encode_utf8("-png"@),
        encode_utf8("-r"@),
        encode_utf8("288"@),
        encode_utf8("-f"@),
        number,
        encode_utf8("-l"@),
        number,
        encode_utf8("-singlefile"@),
        source,
        prefix,
    ]
}

/// How `pdftoppm` is called to rasterize a zero-based page.
pub fn pdf_page_call(source: &FilePath, prefix: &FilePath, page: usize) -> (call: ToolCall)
    requires
        page < usize::MAX,
    ensures
        calls(call, "pdftoppm"@, pdf_args(source@, prefix@, page as int)),
{
    let mut number: String = String::new();
    text::push_decimal(&mut number, (page + 1) as u64);
    assert(number@ =~= text::decimal((page + 1) as nat));
    let mut args: Vec<Vec<u8>> = Vec::new();
    args.push(bytes_of("-png"));
    args.push(bytes_of("-r"));
    args.push(bytes_of("288"));
    args.push(bytes_of("-f"));
    args.push(bytes_of(number.as_str()));
    args.push(bytes_of("-l"));
    args.push(bytes_of(number.as_str()));
    args.push(bytes_of("-singlefile"));
    args.push(path::copy_bytes(source.bytes.as_slice()));
    args.push(path::copy_bytes(prefix.bytes.as_slice()));
    assert(path::pieces_view(args@) =~= pdf_args(source@, prefix@, page as int));
    ToolCall { tool: "pdftoppm", args }
}

/// Whether a page has been rasterized, given what came of `pdftoppm` and
/// whether the PNG is there.
pub fn pdf_page_made(result: ToolResult, there: bool, page: usize, source: &FilePath) -> (made: Result<
    (),
    RasterError,
>)
    ensures
        match result {
            ToolResult::Missing => made == Err::<(), RasterError>(RasterError::NoPdfTool),
            ToolResult::Failed(reason) => made == Err::<(), RasterError>(
                RasterError::Rasterizing(reason),
            ),
            ToolResult::Done => if there {
                made is Ok
            } else {
                made matches Err(RasterError::NoSuchPage { page: p, source: s }) && p == page && s@
                    == source@
            },
        },
{
    match result {
        ToolResult::Missing => Err(RasterError::NoPdfTool),
        ToolResult::Failed(reason) => Err(RasterError::Rasterizing(reason)),
        ToolResult::Done => if there {
            Ok(())
        } else {
            Err(RasterError::NoSuchPage { page, source: source.duplicate() })
        },
    }
}

/// The first line, from index `from` on, that starts with the given text.
pub open spec fn line_with(s: Seq<char>, start: Seq<char>, from: int) -> Option<int>
    decreases s.len() - from,
{
    if from < 0 || from >= s.len() {
        None
    } else if (from == 0 || s[from - 1] == '\n') && text::stands_at(s, start, from) {
        Some(from)
    } else {
        line_with(s, start, from + 1)
    }
}

/// Where the line that holds index `from` ends.
pub open spec fn line_end(s: Seq<char>, from: int) -> int
    decreases s.len() - from,
{
    if from < 0 || from >= s.len() || s[from] == '\n' {
        from
    } else {
        line_end(s, from + 1)
    }
}

/// Whether a character is a decimal digit.
pub open spec fn is_digit(c: char) -> bool {
    '0' <= c <= '9'
}

/// The number that digits spell.
pub open spec fn value_of(digits: Seq<char>) -> int
    decreases digits.len(),
{
    if digits.len() == 0 {
        0
    } else {
        value_of(digits.drop_last()) * 10 + (digits.last() as int - 48)
    }
}

/// Whether text is made of decimal digits.
pub open spec fn all_digits(s: Seq<char>) -> bool {
    forall|i: int| 0 <= i < s.len() ==> is_digit(#[trigger] s[i])
}

/// Text without the `+` that it may start with.
pub open spec fn without_plus(s: Seq<char>) -> Seq<char> {
    if s.len() > 0 && s[0] == '+' {
        s.skip(1)
    } else {
        s
    }
}

/// The number that text spells: digits, with an optional `+` before them, that
/// can be counted.
pub open spec fn number_of(s: Seq<char>) -> Option<int> {
    let digits = without_plus(s);
    if digits.len() > 0 && all_digits(digits) && value_of(digits) <= usize::MAX {
        Some(value_of(digits))
    } else {
        None
    }
}

/// The number that characters spell.
pub fn parse_number(chars: &[char]) -> (n: Option<usize>)
    ensures
        match n {
            Some(v) => number_of(chars@) == Some(v as int),
            None => number_of(chars@) is None,
        },
{
    let start: usize = if chars.len() > 0 && chars[0] == '+' { 1 } else { 0 };
    let ghost digits = without_plus(chars@);
    assert(digits =~= chars@.skip(start as int));
    let len: usize = chars.len();
    if start == len {
        return None;
    }
    let mut value: usize = 0;
    let mut i: usize = start;
    assert(digits.take(0) =~= Seq::<char>::empty());
    while i < len
        invariant
            start <= i <= len == chars@.len(),
            start <= 1,
            digits == without_plus(chars@),
            digits == chars@.skip(start as int),
            value == value_of(digits.take(i - start)),
            forall|j: int| 0 <= j < i - start ==> is_digit(#[trigger] digits[j]),
        decreases len - i,
    {
        let c: char = chars[i];
        let ghost k = i - start;
        assert(digits[k] == c);
        if !('0' <= c && c <= '9') {
            assert(!is_digit(digits[k]));
            return None;
        }
        let d: usize = (c as u32 - 48) as usize;
        assert(digits.take(k + 1).drop_last() =~= digits.take(k));
        if value > (usize::MAX - d) / 10 {
            proof {
                lemma_value_grows(digits, k + 1);
            }
            return None;
        }
        value = value * 10 + d;
        i += 1;
    }
    assert(digits.take(digits.len() as int) =~= digits);
    Some(value)
}

/// More digits spell no smaller number.
proof fn lemma_value_grows(digits: Seq<char>, k: int)
    requires
        0 <= k <= digits.len(),
    ensures
        all_digits(digits) ==> 0 <= value_of(digits.take(k)) <= value_of(digits),
    decreases digits.len() - k,
{
    if all_digits(digits) {
        lemma_value_is_not_negative(digits.take(k));
        if k < digits.len() {
            assert(digits.take(k + 1).drop_last() =~= digits.take(k));
            assert(is_digit(digits[k]));
            lemma_value_grows(digits, k + 1);
        } else {
            assert(digits.take(k) =~= digits);
        }
    }
}

proof fn lemma_value_is_not_negative(digits: Seq<char>)
    requires
        all_digits(digits),
    ensures
        value_of(digits) >= 0,
    decreases digits.len(),
{
    if digits.len() > 0 {
        assert(is_digit(digits[digits.len() - 1]));
        lemma_value_is_not_negative(digits.drop_last());
    }
}

/// The number of pages that `pdfinfo` reports: what its first line about
/// pages says.
pub open spec fn pages_reported(report: Seq<char>) -> Option<int> {
    match line_with(report, "Pages:"@, 0) {
        Some(at) => number_of(trimmed(report.subrange(at + 6, line_end(report, at + 6)))),
        None => None,
    }
}

/// The number of pages that a text printed by `pdfinfo` reports.
pub fn pages_in(printed: &str) -> (count: Option<usize>)
    ensures
        match count {
            Some(n) => pages_reported(printed@) == Some(n as int),
            None => pages_reported(printed@) is None,
        },
{
    let report: Vec<char> = text::chars_of(printed);
    let start: Vec<char> = text::chars_of("Pages:");
    proof {
        reveal_strlit("Pages:");
    }
    let len: usize = report.len();
    let mut at: usize = 0;
    while at < len
        invariant
            at <= len == report@.len(),
            report@ == printed@,
            start@ == "Pages:"@,
            start@.len() == 6,
            line_with(report@, "Pages:"@, 0) == line_with(report@, "Pages:"@, at as int),
        decreases len - at,
    {
        if (at == 0 || report[at - 1] == '\n') && text::begins_with(
            report.as_slice(),
            start.as_slice(),
            at,
        ) {
            let mut end: usize = at + 6;
            while end < len && report[end] != '\n'
                invariant
                    at + 6 <= end <= len == report@.len(),
                    line_end(report@, at + 6) == line_end(report@, end as int),
                decreases len - end,
            {
                end += 1;
            }
            return parse_number(
                trim(vstd::slice::slice_subrange(report.as_slice(), at + 6, end)),
            );
        }
        at += 1;
    }
    None
}

/// The number of pages of a document, from what `pdfinfo` printed about it;
/// nothing if it failed.
pub fn pdf_page_count(success: bool, stdout: &[u8]) -> (count: Option<usize>)
    ensures
        match count {
            Some(n) => success && pages_reported(text::lossy_text(stdout@)) == Some(n as int),
            None => !success || pages_reported(text::lossy_text(stdout@)) is None,
        },
{
    if !success {
        return None;
    }
    let report: String = text::to_lossy(stdout);
    pages_in(report.as_str())
}

/// The raster in a PNG that starts with the given bytes.
pub fn raster_in(png: FilePath, head: &[u8], id: u32) -> (raster: Result<Raster, RasterError>)
    ensures
        head@.len() < 24 ==> raster == Err::<Raster, RasterError>(RasterError::ShortHeader),
        head@.len() >= 24 && !starts_as_png(head@) ==> raster == Err::<Raster, RasterError>(
            RasterError::NotPng,
        ),
        head@.len() >= 24 && starts_as_png(head@) ==> raster == Ok::<Raster, RasterError>(
            Raster {
                png,
                width: big_endian(head@, 16) as u32,
                height: big_endian(head@, 20) as u32,
                id,
            },
        ),
{
    match png_dimensions(head) {
        Ok((width, height)) => Ok(Raster { png, width, height, id }),
        Err(err) => Err(err),
    }
}

/// How the PNG of an image or of a page is come by.
pub enum ImagePlan {
    /// It is there, and no tool is run.
    Ready(FilePath),
    /// It has to be made; see [`conversion_step`] and [`pdf_page_call`].
    Convert,
}

/// How the PNG of an image is come by: a PNG is taken as it is, and one that
/// was made before is taken from the cache.
pub fn image_plan(source: &FilePath, slot: &CacheSlot, cached: bool) -> (plan: ImagePlan)
    ensures
        if path::extension_of(source@) matches Some(ext) && is_png_extension(ext) {
            plan matches ImagePlan::Ready(png) && png@ == source@
        } else if cached {
            plan matches ImagePlan::Ready(png) && png@ == slot.png@
        } else {
            plan is Convert
        },
{
    if is_png(source) {
        ImagePlan::Ready(source.duplicate())
    } else if cached {
        ImagePlan::Ready(slot.png.duplicate())
    } else {
        ImagePlan::Convert
    }
}

/// How the PNG of a page of a PDF is come by: one that was made before is taken
/// from the cache.
pub fn pdf_plan(slot: &CacheSlot, cached: bool) -> (plan: ImagePlan)
    ensures
        if cached {
            plan matches ImagePlan::Ready(png) && png@ == slot.png@
        } else {
            plan is Convert
        },
{
    if cached {
        ImagePlan::Ready(slot.png.duplicate())
    } else {
        ImagePlan::Convert
    }
}

/// Sixteen to a power.
pub open spec fn sixteens(digits: nat) -> nat
    decreases digits,
{
    if digits == 0 {
        1
    } else {
        16 * sixteens((digits - 1) as nat)
    }
}

/// Numbers that have enough digits are told apart by them.
pub proof fn lemma_hex_is_injective(a: nat, b: nat, digits: nat)
    requires
        a < sixteens(digits),
        b < sixteens(digits),
        hex(a, digits) == hex(b, digits),
    ensures
        a == b,
    decreases digits,
{
    if digits > 0 {
        let fewer = (digits - 1) as nat;
        let x = hex(a / 16, fewer);
        let y = hex(b / 16, fewer);
        assert(hex(a, digits) == x.push(hex_digit(a % 16)));
        assert(hex(b, digits) == y.push(hex_digit(b % 16)));
        assert(x =~= x.push(hex_digit(a % 16)).drop_last());
        assert(y =~= y.push(hex_digit(b % 16)).drop_last());
        assert(hex_digit(a % 16) == x.push(hex_digit(a % 16)).last());
        assert(hex_digit(b % 16) == y.push(hex_digit(b % 16)).last());
        lemma_hex_is_injective(a / 16, b / 16, fewer);
    }
}

/// Pages with different hashes are kept under different names.
pub proof fn law_cache_names_tell_pages_apart(a: u64, b: u64)
    requires
        a != b,
    ensures
        hex(a as nat, 16) != hex(b as nat, 16),
        hex(a as nat, 16).len() == 16,
{
    reveal_with_fuel(sixteens, 17);
    reveal_with_fuel(hex, 17);
    if hex(a as nat, 16) == hex(b as nat, 16) {
        lemma_hex_is_injective(a as nat, b as nat, 16);
    }
}

/// Trimming leaves no white space at either end, and takes nothing else: what
/// is left is a part of the text.
pub proof fn law_trimming_takes_white_space_only(s: Seq<char>)
    ensures
        trimmed(s).len() > 0 ==> !is_white(trimmed(s)[0]) && !is_white(trimmed(s).last()),
        exists|start: int, end: int|
            {
                &&& 0 <= start <= end <= s.len()
                &&& trimmed(s) == #[trigger] s.subrange(start, end)
                &&& forall|i: int|
                    (0 <= i < start || end <= i < s.len()) ==> is_white(#[trigger] s[i])
            },
    decreases s.len(),
{
    if s.len() > 0 && is_white(s[0]) {
        let rest = s.skip(1);
        law_trimming_takes_white_space_only(rest);
        let (start, end) = choose|start: int, end: int|
            {
                &&& 0 <= start <= end <= rest.len()
                &&& trimmed(rest) == #[trigger] rest.subrange(start, end)
                &&& forall|i: int|
                    (0 <= i < start || end <= i < rest.len()) ==> is_white(#[trigger] rest[i])
            };
        assert(rest.subrange(start, end) =~= s.subrange(start + 1, end + 1));
        assert forall|i: int| (0 <= i < start + 1 || end + 1 <= i < s.len()) implies is_white(
            #[trigger] s[i],
        ) by {
            if i > 0 {
                assert(rest[i - 1] == s[i]);
            }
        }
    } else {
        lemma_trimmed_end(s);
        let end = choose|end: int|
            {
                &&& 0 <= end <= s.len()
                &&& trimmed_end(s) == #[trigger] s.subrange(0, end)
                &&& forall|i: int| end <= i < s.len() ==> is_white(#[trigger] s[i])
            };
        assert(trimmed(s) == s.subrange(0, end));
    }
}

proof fn lemma_trimmed_end(s: Seq<char>)
    ensures
        trimmed_end(s).len() > 0 ==> !is_white(trimmed_end(s).last()),
        exists|end: int|
            {
                &&& 0 <= end <= s.len()
                &&& trimmed_end(s) == #[trigger] s.subrange(0, end)
                &&& forall|i: int| end <= i < s.len() ==> is_white(#[trigger] s[i])
            },
    decreases s.len(),
{
    if s.len() > 0 && is_white(s.last()) {
        let rest = s.drop_last();
        lemma_trimmed_end(rest);
        let end = choose|end: int|
            {
                &&& 0 <= end <= rest.len()
                &&& trimmed_end(rest) == #[trigger] rest.subrange(0, end)
                &&& forall|i: int| end <= i < rest.len() ==> is_white(#[trigger] rest[i])
            };
        assert(rest.subrange(0, end) =~= s.subrange(0, end));
        assert forall|i: int| end <= i < s.len() implies is_white(#[trigger] s[i]) by {
            if i < rest.len() {
                assert(rest[i] == s[i]);
            }
        }
    } else {
        assert(s =~= s.subrange(0, s.len() as int));
    }
}

/// The number that hexadecimal digits stand for.
pub open spec fn hex_value(digits: Seq<char>) -> int
    decreases digits.len(),
{
    if digits.len() == 0 {
        0
    } else {
        hex_value(digits.drop_last()) * 16 + (if digits.last() <= '9' {
            digits.last() as int - 48
        } else {
            digits.last() as int - 87
        })
    }
}

/// A number in hexadecimal reads as its last digits, each a decimal digit or a
/// letter from `a` to `f`.
pub proof fn law_hexadecimals_read_as_their_number(n: nat, digits: nat)
    requires
        n < sixteens(digits),
    ensures
        hex(n, digits).len() == digits,
        hex_value(hex(n, digits)) == n,
        forall|i: int|
            0 <= i < digits ==> '0' <= #[trigger] hex(n, digits)[i] <= '9' || 'a' <= hex(
                n,
                digits,
            )[i] <= 'f',
    decreases digits,
{
    if digits > 0 {
        let fewer = (digits - 1) as nat;
        law_hexadecimals_read_as_their_number(n / 16, fewer);
        let before = hex(n / 16, fewer);
        assert(hex(n, digits).drop_last() =~= before);
    }
}

/// Four bytes make up a number, the most significant first: each can be had
/// back from it.
pub proof fn law_numbers_start_with_their_high_byte(bytes: Seq<u8>, at: int)
    ensures
        ({
            let n = big_endian(bytes, at);
            &&& 0 <= n < 0x1_0000_0000
            &&& n / 0x100_0000 == bytes[at]
            &&& n / 0x1_0000 % 0x100 == bytes[at + 1]
            &&& n / 0x100 % 0x100 == bytes[at + 2]
            &&& n % 0x100 == bytes[at + 3]
        }),
{
}

/// A PNG starts with the byte 137, `PNG` and the line ends that tell whether
/// it was transferred well; behind the length of its first chunk that chunk is
/// named `IHDR`.
pub proof fn law_png_files_start_with_their_signature(head: Seq<u8>)
    requires
        head.len() >= 24,
    ensures
        starts_as_png(head) <==> {
            &&& head[0] == 137 && head[1] == 80 && head[2] == 78 && head[3] == 71
            &&& head[4] == 13 && head[5] == 10 && head[6] == 26 && head[7] == 10
            &&& head[12] == 73 && head[13] == 72 && head[14] == 68 && head[15] == 82
        },
{
    let signature = seq![0x89u8, 0x50, 0x4E, 0x47, 0x0D, 0x0A, 0x1A, 0x0A];
    let chunk = seq![0x49u8, 0x48, 0x44, 0x52];
    if starts_as_png(head) {
        assert forall|i: int| 0 <= i < 8 implies #[trigger] head[i] == signature[i] by {
            assert(head.subrange(0, 8)[i] == signature[i]);
        }
        assert forall|i: int| 12 <= i < 16 implies #[trigger] head[i] == chunk[i - 12] by {
            assert(head.subrange(12, 16)[i - 12] == chunk[i - 12]);
        }
    }
    if head[0] == 137 && head[1] == 80 && head[2] == 78 && head[3] == 71 && head[4] == 13
        && head[5] == 10 && head[6] == 26 && head[7] == 10 {
        assert(head.subrange(0, 8) =~= signature);
    }
    if head[12] == 73 && head[13] == 72 && head[14] == 68 && head[15] == 82 {
        assert(head.subrange(12, 16) =~= chunk);
    }
}

/// White space is what Unicode calls white space.
pub proof fn law_unicode_white_space(c: char)
    ensures
        is_white(c) <==> ({
            let n = c as int;
            ||| 9 <= n <= 13
            ||| n == 32
            ||| n == 133
            ||| n == 160
            ||| n == 5760
            ||| 8192 <= n <= 8202
            ||| n == 8232
            ||| n == 8233
            ||| n == 8239
            ||| n == 8287
            ||| n == 12288
        }),
{
}

/// Spaces, tabs and line ends count as white space; nothing else of ASCII does.
pub proof fn law_ascii_white_space(c: char)
    requires
        (c as u32) < 128,
    ensures
        is_white(c) <==> c == ' ' || c == '\t' || c == '\n' || c == '\r' || c == '\u{b}' || c
            == '\u{c}',
{
}

/// What a failed tool is reported with names the tool, and ends with what it
/// said, trimmed.
pub proof fn law_failures_name_the_tool(tool: Seq<char>, said: Seq<char>)
    ensures
        failure_text(tool, said) == "`"@ + tool + "` failed: "@ + trimmed(said),
{
}

/// The converters are tried in this order, each once.
pub proof fn law_converters_are_tried_in_order(converter: Converter)
    ensures
        next_converter(Converter::Magick) == Some(Converter::Convert),
        next_converter(Converter::Convert) == Some(Converter::Sips),
        next_converter(Converter::Sips) is None,
{
}

/// Every converter is handed the image to read and the PNG to write, in this
/// order; of an animated image the first frame is taken.
pub proof fn law_converters_are_told_what_to_do(source: Seq<u8>, cache: Seq<u8>)
    ensures
        conversion(Converter::Magick, source, cache).0 == "magick"@,
        conversion(Converter::Convert, source, cache).0 == "convert"@,
        conversion(Converter::Sips, source, cache).0 == "sips"@,
        conversion(Converter::Magick, source, cache).1 == conversion(
            Converter::Convert,
            source,
            cache,
        ).1,
        ({
            let args = conversion(Converter::Magick, source, cache).1;
            &&& args.len() == 2
            &&& args[0] == source + encode_utf8("[0]"@)
            &&& args[1] == cache
        }),
        ({
            let args = conversion(Converter::Sips, source, cache).1;
            &&& args.len() == 6
            &&& args[0] == encode_utf8("-s"@) && args[1] == encode_utf8("format"@) && args[2]
                == encode_utf8("png"@)
            &&& args[3] == source
            &&& args[4] == encode_utf8("--out"@)
            &&& args[5] == cache
        }),
{
}

/// A page is rasterized alone: the first page and the last are both that page,
/// counted from one; the document to read comes before the PNG to write.
pub proof fn law_one_page_is_rasterized(source: Seq<u8>, prefix: Seq<u8>, page: int)
    requires
        0 <= page,
    ensures
        ({
            let args = pdf_args(source, prefix, page);
            &&& args.len() == 10
            &&& args[0] == encode_utf8("-png"@)
            &&& args[1] == encode_utf8("-r"@) && args[2] == encode_utf8("288"@)
            &&& args[3] == encode_utf8("-f"@) && args[5] == encode_utf8("-l"@)
            &&& args[4] == args[6]
            &&& args[4] == encode_utf8(text::decimal((page + 1) as nat))
            &&& args[7] == encode_utf8("-singlefile"@)
            &&& args[8] == source
            &&& args[9] == prefix
        }),
{
}

/// A call is of a tool with arguments if it names the tool and has just these
/// arguments, in their order.
pub proof fn law_calls_have_their_arguments(call: ToolCall, tool: Seq<char>, args: Seq<Seq<u8>>)
    requires
        calls(call, tool, args),
    ensures
        call.tool@ == tool,
        call.args@.len() == args.len(),
        forall|i: int| 0 <= i < args.len() ==> (#[trigger] call.args@[i])@ == args[i],
{
    assert(path::pieces_view(call.args@).len() == call.args@.len());
    assert forall|i: int| 0 <= i < args.len() implies (#[trigger] call.args@[i])@ == args[i] by {
        assert(path::pieces_view(call.args@)[i] == call.args@[i]@);
    }
}

/// The extension of a PNG is `png`, in capitals or not, letter by letter.
pub proof fn law_png_extensions_ignore_case(ext: Seq<u8>)
    ensures
        is_png_extension(ext) <==> ext.len() == 3 && text::ascii_lower(ext[0] as char) == 'p'
            && text::ascii_lower(ext[1] as char) == 'n' && text::ascii_lower(ext[2] as char) == 'g',
{
}

/// The first line that starts with a text is found: a line starts at the start,
/// or behind a line end, and there is none before it that does.
pub proof fn law_the_first_such_line_is_found(s: Seq<char>, start: Seq<char>)
    ensures
        match line_with(s, start, 0) {
            Some(at) => {
                &&& 0 <= at < s.len()
                &&& at == 0 || s[at - 1] == '\n'
                &&& text::stands_at(s, start, at)
                &&& forall|j: int|
                    #![trigger text::stands_at(s, start, j)]
                    0 <= j < at && (j == 0 || s[j - 1] == '\n') ==> !text::stands_at(s, start, j)
            },
            None => forall|j: int|
                #![trigger text::stands_at(s, start, j)]
                0 <= j < s.len() && (j == 0 || s[j - 1] == '\n') ==> !text::stands_at(s, start, j),
        },
{
    lemma_line_with(s, start, 0);
}

proof fn lemma_line_with(s: Seq<char>, start: Seq<char>, from: int)
    requires
        0 <= from <= s.len(),
    ensures
        match line_with(s, start, from) {
            Some(at) => {
                &&& from <= at < s.len()
                &&& at == 0 || s[at - 1] == '\n'
                &&& text::stands_at(s, start, at)
                &&& forall|j: int|
                    #![trigger text::stands_at(s, start, j)]
                    from <= j < at && (j == 0 || s[j - 1] == '\n') ==> !text::stands_at(s, start, j)
            },
            None => forall|j: int|
                #![trigger text::stands_at(s, start, j)]
                from <= j < s.len() && (j == 0 || s[j - 1] == '\n') ==> !text::stands_at(
                    s,
                    start,
                    j,
                ),
        },
    decreases s.len() - from,
{
    if from < s.len() && !((from == 0 || s[from - 1] == '\n') && text::stands_at(s, start, from)) {
        lemma_line_with(s, start, from + 1);
    }
}

/// A line ends before the next line end, or with the text.
pub proof fn law_lines_end_at_line_ends(s: Seq<char>, from: int)
    requires
        0 <= from <= s.len(),
    ensures
        from <= line_end(s, from) <= s.len(),
        line_end(s, from) < s.len() ==> s[line_end(s, from)] == '\n',
        forall|i: int| from <= i < line_end(s, from) ==> #[trigger] s[i] != '\n',
    decreases s.len() - from,
{
    if from < s.len() && s[from] != '\n' {
        law_lines_end_at_line_ends(s, from + 1);
    }
}

/// Digits stand for the number that they are the decimals of.
proof fn lemma_values_agree(digits: Seq<char>)
    ensures
        value_of(digits) == text::digits_value(digits),
    decreases digits.len(),
{
    if digits.len() > 0 {
        lemma_values_agree(digits.drop_last());
    }
}

/// A number in decimal is read as that number, also with a `+` before it. What
/// holds anything but digits behind that is no number, nor is an empty text.
pub proof fn law_decimals_are_read_back(n: usize, s: Seq<char>, i: int)
    ensures
        number_of(text::decimal(n as nat)) == Some(n as int),
        number_of(seq!['+'] + text::decimal(n as nat)) == Some(n as int),
        s.len() == 0 ==> number_of(s) is None,
        s == seq!['+'] ==> number_of(s) is None,
        0 < i < s.len() && !('0' <= s[i] <= '9') ==> number_of(s) is None,
        s.len() > 0 && !('0' <= s[0] <= '9') && s[0] != '+' ==> number_of(s) is None,
        number_of(s) matches Some(v) ==> 0 <= v <= usize::MAX,
        s.len() > 0 && (forall|k: int| 0 <= k < s.len() ==> '0' <= #[trigger] s[k] <= '9')
            ==> number_of(s) == (if text::digits_value(s) <= usize::MAX {
            Some(text::digits_value(s))
        } else {
            None
        }),
{
    let digits = text::decimal(n as nat);
    text::law_decimals_read_as_their_number(n as nat);
    lemma_values_agree(digits);
    assert(without_plus(digits) == digits);
    assert(without_plus(seq!['+'] + digits) =~= digits);
    if s == seq!['+'] {
        assert(without_plus(s) =~= Seq::<char>::empty());
    }
    let bare = without_plus(s);
    if 0 < i < s.len() && !('0' <= s[i] <= '9') {
        if s[0] == '+' {
            assert(bare[i - 1] == s[i]);
            assert(!is_digit(bare[i - 1]));
        } else {
            assert(!is_digit(bare[i]));
        }
    }
    if s.len() > 0 && !('0' <= s[0] <= '9') && s[0] != '+' {
        assert(!is_digit(bare[0]));
    }
    if number_of(s) is Some {
        lemma_value_is_not_negative(bare);
    }
    lemma_values_agree(s);
    if s.len() > 0 && (forall|k: int| 0 <= k < s.len() ==> '0' <= #[trigger] s[k] <= '9') {
        assert('0' <= s[0] <= '9');
        assert(bare == s);
    }
}

/// The number of pages is read from the first line that starts with `Pages:`:
/// it is what stands there behind that, trimmed.
pub proof fn law_pages_are_read_from_their_line(
    before: Seq<char>,
    line: Seq<char>,
    behind: Seq<char>,
)
    requires
        before.len() == 0 || before.last() == '\n',
        forall|i: int| 0 <= i < line.len() ==> #[trigger] line[i] != '\n',
        behind.len() == 0 || behind[0] == '\n',
        forall|j: int|
            #![trigger text::stands_at(before + "Pages:"@ + line + behind, "Pages:"@, j)]
            0 <= j < before.len() && (j == 0 || before[j - 1] == '\n') ==> !text::stands_at(
                before + "Pages:"@ + line + behind,
                "Pages:"@,
                j,
            ),
    ensures
        pages_reported(before + "Pages:"@ + line + behind) == number_of(trimmed(line)),
{
    let start = "Pages:"@;
    reveal_strlit("Pages:");
    assert(start.len() == 6);
    let s = before + start + line + behind;
    let at = before.len() as int;
    assert(s =~= before + start + (line + behind));
    text::law_text_stands_where_it_was_put(before, start, line + behind, s, at);
    assert(text::stands_at(s, start, at));
    lemma_line_with(s, start, 0);
    assert(at == 0 || s[at - 1] == '\n');
    let found = line_with(s, start, 0);
    assert(found is Some);
    let k = found.unwrap();
    if k < at {
        assert(k == 0 || before[k - 1] == s[k - 1]);
        assert(false);
    }
    assert(k == at);
    law_lines_end_at_line_ends(s, at + 6);
    let end = line_end(s, at + 6);
    assert forall|i: int| 0 <= i < line.len() implies #[trigger] line[i] == s[at + 6 + i] by {}
    if end < at + 6 + line.len() {
        assert(line[end - at - 6] == s[end]);
        assert(false);
    }
    if end > at + 6 + line.len() {
        assert(s[at + 6 + line.len()] == behind[0]);
        assert(false);
    }
    assert(s.subrange(at + 6, end) =~= line);
}

/// Where no line starts with `Pages:` there is no number of pages.
pub proof fn law_no_line_no_pages(report: Seq<char>)
    requires
        forall|j: int|
            #![trigger text::stands_at(report, "Pages:"@, j)]
            0 <= j < report.len() && (j == 0 || report[j - 1] == '\n') ==> !text::stands_at(
                report,
                "Pages:"@,
                j,
            ),
    ensures
        pages_reported(report) is None,
{
    lemma_line_with(report, "Pages:"@, 0);
}

/// What each error says.
pub proof fn law_raster_errors_say_what_is_missing(
    reason: String,
    page: usize,
    source: FilePath,
)
    ensures
        RasterError::ShortHeader.text() == "reading PNG header"@,
        RasterError::NotPng.text() == "not a PNG file"@,
        RasterError::NoConverter.text()
            == "no image converter found (need `magick`, `convert`, or `sips`)"@,
        RasterError::Converting(reason).text() == "converting image to PNG"@,
        RasterError::NoPdfTool.text() == "`pdftoppm` (poppler) is required to render PDFs"@,
        RasterError::Rasterizing(reason).text() == "rasterizing PDF page"@,
        (RasterError::NoSuchPage { page, source }).text() == "no page "@ + text::decimal(
            (page + 1) as nat,
        ) + " in "@ + text::lossy_text(source@),
{
}

} // verus!
