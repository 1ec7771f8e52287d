use helix_picker::path::{normalize, render, split_path, FilePath};
use helix_picker::raster::{
    cache_slot, conversion_call, conversion_step, failure_message, image_plan, is_png, pages_in,
    parse_number, pdf_page_call, pdf_page_count, pdf_page_made, pdf_plan, png_dimensions, raster_in,
    trim, try_tool, Converter, ConversionStep, ImagePlan, RasterError, ToolCall, ToolResult, ToolRun,
};
use helix_picker::text::{contains, same_text};

fn path(text: &str) -> FilePath {
    FilePath::from_text(text)
}

fn text(path: &FilePath) -> String {
    String::from_utf8(path.bytes.clone()).unwrap()
}

fn words(call: &ToolCall) -> Vec<String> {
    call.args.iter().map(|arg| String::from_utf8(arg.clone()).unwrap()).collect()
}

fn png(width: u32, height: u32) -> Vec<u8> {
    let mut head = b"\x89PNG\r\n\x1a\n\0\0\0\x0dIHDR".to_vec();
    head.extend(width.to_be_bytes());
    head.extend(height.to_be_bytes());
    head
}

#[test]
fn slots_are_named_by_hash() {
    let slot = cache_slot(&path("/cache"), 0x00AB_CDEF_0123_4567);
    assert_eq!(text(&slot.png), "/cache/00abcdef01234567.png");
    assert_eq!(text(&slot.prefix), "/cache/00abcdef01234567");
    assert_eq!(slot.id, 0x234567);
    assert_eq!(cache_slot(&path("/cache"), 0xFF00_0000).id, 1);
    assert_eq!(text(&cache_slot(&path("/cache/"), 0).png), "/cache/0000000000000000.png");
    assert_eq!(cache_slot(&path("/c"), u64::MAX).id, 0xFF_FFFF);
}

#[test]
fn png_headers() {
    assert_eq!(png_dimensions(&png(640, 0x0102_0304)).ok().unwrap(), (640, 0x0102_0304));
    assert!(matches!(png_dimensions(&png(1, 1)[..23]), Err(RasterError::ShortHeader)));
    let mut bad = png(1, 1);
    bad[0] = 0x88;
    assert!(matches!(png_dimensions(&bad), Err(RasterError::NotPng)));
    let mut bad = png(1, 1);
    bad[15] = b'r';
    assert!(matches!(png_dimensions(&bad), Err(RasterError::NotPng)));
    let raster = raster_in(path("/x.png"), &png(8, 9), 77).ok().unwrap();
    assert_eq!((raster.width, raster.height, raster.id), (8, 9, 77));
    assert!(raster_in(path("/x.png"), b"GIF89a", 1).is_err());
}

#[test]
fn tools_fare_in_one_of_three_ways() {
    assert!(matches!(try_tool("magick", ToolRun::NotFound), ToolResult::Missing));
    let failed = try_tool("magick", ToolRun::NotRun("permission denied".to_string()));
    assert!(matches!(failed, ToolResult::Failed(reason) if reason == "permission denied"));
    let done = ToolRun::Exited { success: true, stderr: b"warning".to_vec() };
    assert!(matches!(try_tool("magick", done), ToolResult::Done));
    let failed = ToolRun::Exited { success: false, stderr: b"\n  no such\xFF file \r\n".to_vec() };
    assert!(matches!(
        try_tool("magick", failed),
        ToolResult::Failed(reason) if reason == "`magick` failed: no such\u{FFFD} file"
    ));
    assert_eq!(failure_message("sips", " \u{3000} "), "`sips` failed: ");
}

#[test]
fn converters_are_tried_in_turn() {
    assert!(matches!(conversion_step(None), ConversionStep::Run(Converter::Magick)));
    let next = |tool, result| conversion_step(Some((tool, result)));
    assert!(matches!(
        next(Converter::Magick, ToolResult::Missing),
        ConversionStep::Run(Converter::Convert)
    ));
    assert!(matches!(
        next(Converter::Convert, ToolResult::Missing),
        ConversionStep::Run(Converter::Sips)
    ));
    assert!(matches!(
        next(Converter::Sips, ToolResult::Missing),
        ConversionStep::Failed(RasterError::NoConverter)
    ));
    assert!(matches!(next(Converter::Convert, ToolResult::Done), ConversionStep::Done));
    assert!(matches!(
        next(Converter::Magick, ToolResult::Failed("x".to_string())),
        ConversionStep::Failed(RasterError::Converting(reason)) if reason == "x"
    ));
}

#[test]
fn calls_of_the_tools() {
    let (source, cache) = (path("/a.gif"), path("/c.png"));
    let call = conversion_call(Converter::Magick, &source, &cache);
    assert_eq!((call.tool, words(&call)), ("magick", vec!["/a.gif[0]".to_string(), "/c.png".into()]));
    let call = conversion_call(Converter::Convert, &source, &cache);
    assert_eq!((call.tool, words(&call)), ("convert", vec!["/a.gif[0]".to_string(), "/c.png".into()]));
    let call = conversion_call(Converter::Sips, &source, &cache);
    assert_eq!(call.tool, "sips");
    assert_eq!(words(&call), vec!["-s", "format", "png", "/a.gif", "--out", "/c.png"]);
    let call = pdf_page_call(&path("/d.pdf"), &path("/c"), 41);
    assert_eq!(call.tool, "pdftoppm");
    assert_eq!(
        words(&call),
        vec!["-png", "-r", "288", "-f", "42", "-l", "42", "-singlefile", "/d.pdf", "/c"]
    );
}

#[test]
fn images_are_taken_as_they_are_found() {
    let slot = cache_slot(&path("/c"), 1);
    for name in ["/a.png", "/a.PnG"] {
        assert!(is_png(&path(name)));
        assert!(matches!(
            image_plan(&path(name), &slot, true),
            ImagePlan::Ready(png) if text(&png) == name
        ));
    }
    assert!(!is_png(&path("/a.pngx")) && !is_png(&path("/png")));
    assert!(matches!(
        image_plan(&path("/a.gif"), &slot, true),
        ImagePlan::Ready(png) if png.bytes == slot.png.bytes
    ));
    assert!(matches!(image_plan(&path("/a.gif"), &slot, false), ImagePlan::Convert));
}

#[test]
fn pages_are_made_once() {
    let slot = cache_slot(&path("/c"), 1);
    assert!(matches!(
        pdf_plan(&slot, true),
        ImagePlan::Ready(png) if text(&png) == "/c/0000000000000001.png"
    ));
    assert!(matches!(pdf_plan(&slot, false), ImagePlan::Convert));
}

#[test]
fn pages_that_could_not_be_made() {
    let source = path("/d.pdf");
    assert!(pdf_page_made(ToolResult::Done, true, 2, &source).is_ok());
    let err = |result, there| pdf_page_made(result, there, 2, &source).unwrap_err();
    assert_eq!(err(ToolResult::Done, false).message(), "no page 3 in /d.pdf");
    assert_eq!(
        err(ToolResult::Missing, true).message(),
        "`pdftoppm` (poppler) is required to render PDFs"
    );
    let failed = err(ToolResult::Failed("why".to_string()), true);
    assert_eq!(failed.message(), "rasterizing PDF page");
    assert!(matches!(failed, RasterError::Rasterizing(reason) if reason == "why"));
}

#[test]
fn errors_in_words() {
    assert_eq!(RasterError::ShortHeader.message(), "reading PNG header");
    assert_eq!(RasterError::NotPng.message(), "not a PNG file");
    assert_eq!(RasterError::Converting("x".to_string()).message(), "converting image to PNG");
    assert_eq!(
        RasterError::NoConverter.message(),
        "no image converter found (need `magick`, `convert`, or `sips`)"
    );
}

#[test]
fn page_counts_are_read_off_a_report() {
    let report = "Title: Pages: 3\nPages:          12\r\nPages: 99\n";
    assert_eq!(pages_in(report), Some(12));
    assert_eq!(pages_in("Pages:7"), Some(7));
    assert_eq!(pages_in("Pages: +7"), Some(7));
    assert_eq!(pages_in("Pages: seven\nPages: 7"), None);
    assert_eq!(pages_in("Page: 7"), None);
    assert_eq!(pages_in(""), None);
    assert_eq!(pages_in("Pages: 99999999999999999999999"), None);
    assert_eq!(pdf_page_count(true, b"\xFF\nPages: 4\n"), Some(4));
    assert_eq!(pdf_page_count(false, b"Pages: 4\n"), None);
}

#[test]
fn numbers_are_parsed_as_far_as_they_can_be_counted() {
    let parse = |s: &str| parse_number(&s.chars().collect::<Vec<char>>());
    assert_eq!(parse("0012"), Some(12));
    assert_eq!(parse(&usize::MAX.to_string()), Some(usize::MAX));
    assert_eq!(parse(&format!("{}0", usize::MAX)), None);
    for bad in ["", "+", "-1", "++1", "1 2", "\u{661}"] {
        assert_eq!(parse(bad), None, "{bad}");
        assert_eq!(bad.parse::<usize>().ok(), None);
    }
}

#[test]
fn trimming_agrees_with_the_standard_library() {
    for s in ["", " ", "a", " a b\t", "\u{a0}x\u{2003}", "\u{200b}x", "\u{85}\u{1680}y\u{3000}\n"] {
        let chars: Vec<char> = s.chars().collect();
        let trimmed: String = trim(&chars).iter().collect();
        assert_eq!(trimmed, s.trim(), "{s:?}");
    }
}

#[test]
fn paths_agree_with_the_standard_library() {
    let samples = [
        "", "/", "//", ".", "..", "a", "./a", "a/", "a/.", "a/./b", "a//b", "/a", "//a", "/./a",
        "/a/../b", "../a", "a/..", "/..", "/.hidden", "a.tar.gz", ".a.b", "a.", "x/y.z/", "/a/b/.",
    ];
    for p in samples {
        let own = path(p);
        let std = std::path::Path::new(p);
        let show = |p: Option<FilePath>| p.map(|p| text(&p));
        let string = |p: Option<&std::path::Path>| p.map(|p| p.to_str().unwrap().to_string());
        assert_eq!(own.is_absolute(), std.is_absolute(), "{p}");
        assert_eq!(show(own.parent()), string(std.parent()), "parent of {p}");
        assert_eq!(
            own.file_name().map(|n| String::from_utf8(n).unwrap()),
            std.file_name().map(|n| n.to_str().unwrap().to_string()),
            "file name of {p}"
        );
        assert_eq!(
            own.extension().map(|n| String::from_utf8(n).unwrap()),
            std.extension().map(|n| n.to_str().unwrap().to_string()),
            "extension of {p}"
        );
        for q in samples {
            let other = path(q);
            let std_other = std::path::Path::new(q);
            assert_eq!(own.same(&other), std == std_other, "{p} and {q}");
            assert_eq!(
                text(&own.join(&other)),
                std.join(std_other).to_str().unwrap(),
                "{p} joined with {q}"
            );
            assert_eq!(
                show(own.strip_prefix(&other)),
                string(std.strip_prefix(std_other).ok()),
                "{p} below {q}"
            );
        }
    }
}

#[test]
fn paths_are_normalized() {
    let normal = |p: &str| {
        let own = path(p);
        text(&render(own.is_absolute(), &normalize(&own)))
    };
    assert_eq!(normal("/a/./b/../c//d/"), "/a/c/d");
    assert_eq!(normal("../a"), "a");
    assert_eq!(normal("/../a/.."), "/");
    assert_eq!(normal("a/.."), "");
    assert_eq!(split_path(b"/a//b"), vec![b"".to_vec(), b"a".to_vec(), b"".to_vec(), b"b".to_vec()]);
    assert_eq!(path("/a").display(), "/a");
    assert_eq!(FilePath { bytes: vec![0xC3] }.display(), "\u{FFFD}");
}

#[test]
fn texts_are_searched() {
    assert!(contains("xterm-kitty", "kitty"));
    assert!(!contains("kitt", "kitty"));
    assert!(contains("", ""));
    assert!(!contains("", "a"));
    assert!(same_text("ä", "ä") && !same_text("ä", "a"));
}
