use std::collections::HashMap;
use std::io::Cursor;

use image_server::error::ServeError;
use image_server::handler::{Action, Event, ImageRequest, Reply, Resolution, Source, Stage};
use image_server::params::ImageParams;
use image_server::path::{
    content_type_for, extension, is_safe_path, is_within, output_format_for, ContentKind,
    OutputFormat,
};
use image_server::raster::{encode_plan, render, target_dimensions, EncodePlan};
use image_server::text::{parse_decimal, same_text};

fn segs(path: &str) -> Vec<String> {
    path.split('/').map(String::from).collect()
}

fn params(w: Option<u32>, h: Option<u32>, q: Option<u8>) -> ImageParams {
    ImageParams { w, h, q }
}

fn png_bytes(w: u32, h: u32) -> Vec<u8> {
    let img = image::DynamicImage::ImageRgb8(image::RgbImage::from_fn(w, h, |x, y| {
        image::Rgb([(x % 256) as u8, (y % 256) as u8, 128])
    }));
    let mut out = Cursor::new(Vec::new());
    img.write_to(&mut out, image::ImageFormat::Png).unwrap();
    out.into_inner()
}

fn jpeg_bytes(w: u32, h: u32) -> Vec<u8> {
    let img = image::load_from_memory(&png_bytes(w, h)).unwrap();
    let mut out = Cursor::new(Vec::new());
    img.write_to(&mut out, image::ImageFormat::Jpeg).unwrap();
    out.into_inner()
}

fn dims_of(bytes: &[u8]) -> (u32, u32) {
    let img = image::load_from_memory(bytes).unwrap();
    (img.width(), img.height())
}

/// An image root held in memory: files by their segments under the root.
struct Store {
    files: HashMap<Vec<String>, Vec<u8>>,
    writes: usize,
    reads: usize,
}

impl Store {
    fn new() -> Store {
        Store { files: HashMap::new(), writes: 0, reads: 0 }
    }

    fn root() -> Vec<String> {
        vec!["/".to_string(), "srv".to_string(), "images".to_string()]
    }

    fn resolve(&self, loc: &[String]) -> Resolution {
        if self.files.contains_key(loc) {
            let mut target = Store::root();
            target.extend(loc.iter().cloned());
            Resolution::Found { root: Store::root(), target, is_file: true }
        } else {
            Resolution::Missing
        }
    }

    /// Runs one request to its end, storing what it offers for storing.
    fn serve(&mut self, path: &str, p: ImageParams) -> Result<Reply, ServeError> {
        let (mut req, mut action) = ImageRequest::begin(segs(path), p);
        loop {
            let event = match action {
                Action::Resolve(loc) => Event::Resolved(self.resolve(&loc)),
                Action::Read(loc) => {
                    self.reads += 1;
                    Event::Loaded(self.files.get(&loc).cloned())
                }
                Action::Respond(reply) => {
                    if let Some(loc) = &reply.persist {
                        self.writes += 1;
                        self.files.insert(loc.clone(), reply.body.clone());
                    }
                    assert_eq!(req.stage(), Stage::Done);
                    return Ok(reply);
                }
                Action::Reject(e) => return Err(e),
            };
            assert!(req.expects(&event));
            action = req.step(event);
        }
    }
}

#[test]
fn cache_key_for_each_combination() {
    let key = |w, h, q| params(w, h, q).cache_dir_name();
    assert_eq!(key(Some(100), Some(100), Some(80)), Some("w100h100q80".to_string()));
    assert_eq!(key(Some(100), Some(50), None), Some("w100h50".to_string()));
    assert_eq!(key(Some(7), None, Some(0)), Some("w7q0".to_string()));
    assert_eq!(key(None, Some(30), Some(150)), Some("h30q150".to_string()));
    assert_eq!(key(None, Some(4294967295), None), Some("h4294967295".to_string()));
    assert_eq!(key(Some(1), None, None), Some("w1".to_string()));
    assert_eq!(key(None, None, Some(255)), Some("q255".to_string()));
    assert_eq!(key(None, None, None), None);
}

#[test]
fn cache_keys_are_distinct_and_stable() {
    let a = params(Some(1), Some(23), None).cache_dir_name();
    let b = params(Some(12), Some(3), None).cache_dir_name();
    let c = params(None, Some(1), Some(23)).cache_dir_name();
    assert_ne!(a, b);
    assert_ne!(a, c);
    assert_eq!(a, params(Some(1), Some(23), None).cache_dir_name());
}

#[test]
fn query_values_are_read_independently() {
    let p = ImageParams::from_query(Some("100"), Some("abc"), Some("150"));
    assert_eq!(p, params(Some(100), None, Some(150)));
    let p = ImageParams::from_query(Some("0"), Some("007"), None);
    assert_eq!(p, params(None, Some(7), None));
    let p = ImageParams::from_query(Some("4294967296"), Some("4294967295"), Some("256"));
    assert_eq!(p, params(None, Some(4294967295), None));
    let p = ImageParams::from_query(Some(""), Some("-5"), Some("+1"));
    assert!(p.is_empty());
    assert!(!params(None, None, Some(0)).is_empty());
}

#[test]
fn decimal_parsing_bounds() {
    assert_eq!(parse_decimal("255", 255), Some(255));
    assert_eq!(parse_decimal("256", 255), None);
    assert_eq!(parse_decimal("99999999999999999999", u32::MAX), None);
    assert_eq!(parse_decimal("12a", u32::MAX), None);
    assert_eq!(parse_decimal("0042", u32::MAX), Some(42));
    assert!(same_text("png", "png"));
    assert!(!same_text("png", "pn"));
}

#[test]
fn parent_segments_are_rejected() {
    assert!(!is_safe_path(&segs("../../etc/passwd")));
    assert!(!is_safe_path(&vec!["a/../b".to_string()]));
    assert!(is_safe_path(&segs("photos/..x/a.png")));
    let mut store = Store::new();
    store.files.insert(segs("../../etc/passwd"), b"secret".to_vec());
    assert_eq!(store.serve("../../etc/passwd", params(None, None, None)).err(), Some(ServeError::InvalidPath));
    assert_eq!(store.serve("../../etc/passwd", params(Some(10), None, None)).err(), Some(ServeError::InvalidPath));
    assert_eq!(store.reads, 0);
}

#[test]
fn link_out_of_the_root_is_rejected() {
    let (mut req, action) = ImageRequest::begin(segs("link.png"), params(None, None, None));
    assert!(matches!(action, Action::Resolve(_)));
    let outside = Resolution::Found {
        root: Store::root(),
        target: vec!["/".to_string(), "etc".to_string(), "passwd".to_string()],
        is_file: true,
    };
    match req.step(Event::Resolved(outside)) {
        Action::Reject(e) => assert_eq!(e, ServeError::InvalidPath),
        _ => panic!("an escaping link must be rejected"),
    }
}

#[test]
fn containment_is_by_whole_components() {
    let root = vec!["/".to_string(), "srv".to_string(), "img".to_string()];
    let inside = vec!["/".to_string(), "srv".to_string(), "img".to_string(), "a.png".to_string()];
    let sibling = vec!["/".to_string(), "srv".to_string(), "img2".to_string(), "a.png".to_string()];
    assert!(is_within(&root, &inside));
    assert!(is_within(&root, &root));
    assert!(!is_within(&root, &sibling));
    assert!(!is_within(&inside, &root));
}

#[test]
fn root_that_cannot_be_resolved() {
    let (mut req, _) = ImageRequest::begin(segs("a.png"), params(None, None, None));
    match req.step(Event::Resolved(Resolution::RootUnresolvable)) {
        Action::Reject(e) => {
            assert_eq!(e, ServeError::InvalidRoot);
            assert_eq!(e.message(), "Invalid base directory");
        }
        _ => panic!("expected a rejection"),
    }
}

#[test]
fn extensions_and_tables() {
    assert_eq!(extension("a.png"), Some("png"));
    assert_eq!(extension("archive.tar.gz"), Some("gz"));
    assert_eq!(extension(".png"), None);
    assert_eq!(extension("noext"), None);
    assert_eq!(extension("a."), Some(""));
    assert_eq!(content_type_for(Some("jpeg")), ContentKind::Jpeg);
    assert_eq!(content_type_for(Some("webp")), ContentKind::WebP);
    assert_eq!(content_type_for(Some("PNG")), ContentKind::Png);
    assert_eq!(content_type_for(None), ContentKind::Png);
    assert_eq!(output_format_for(Some("jpg")), OutputFormat::Jpeg);
    assert_eq!(output_format_for(Some("gif")), OutputFormat::Gif);
    assert_eq!(output_format_for(Some("bmp")), OutputFormat::Bmp);
    assert_eq!(output_format_for(Some("tiff")), OutputFormat::Png);
}

#[test]
fn resize_policy() {
    assert_eq!(target_dimensions(200, 100, Some(100), None), (100, 50));
    assert_eq!(target_dimensions(200, 100, None, Some(25)), (50, 25));
    assert_eq!(target_dimensions(200, 100, Some(30), Some(70)), (30, 70));
    assert_eq!(target_dimensions(200, 100, None, None), (200, 100));
    assert_eq!(target_dimensions(3, 7, Some(1), None), (1, 2));
    assert_eq!(target_dimensions(640, 480, Some(84), None), (84, 62));
    assert_eq!(target_dimensions(480, 640, None, Some(84)), (62, 84));
    assert_eq!(target_dimensions(2, 16777217, Some(2), None), (2, 16777216));
    assert_eq!(target_dimensions(1, 4294967295, Some(4294967295), None), (4294967295, 4294967295));
}

#[test]
fn resize_width_keeps_aspect() {
    let out = render(&png_bytes(200, 100), "image.png", &params(Some(100), None, None), OutputFormat::Png).unwrap();
    assert_eq!(dims_of(&out), (100, 50));
}

#[test]
fn resize_exact_both() {
    let out = render(&png_bytes(200, 100), "image.png", &params(Some(40), Some(90), None), OutputFormat::Png).unwrap();
    assert_eq!(dims_of(&out), (40, 90));
}

#[test]
fn quality_alone_keeps_size() {
    let out = render(&png_bytes(20, 10), "image.png", &params(None, None, Some(50)), OutputFormat::Jpeg).unwrap();
    assert_eq!(dims_of(&out), (20, 10));
    assert_eq!(image::guess_format(&out).unwrap(), image::ImageFormat::Jpeg);
}

#[test]
fn quality_above_hundred_is_capped() {
    assert_eq!(encode_plan(OutputFormat::Jpeg, Some(150)), EncodePlan::JpegQuality(100));
    assert_eq!(encode_plan(OutputFormat::Jpeg, Some(40)), EncodePlan::JpegQuality(40));
    assert_eq!(encode_plan(OutputFormat::Png, Some(40)), EncodePlan::Default(OutputFormat::Png));
    assert_eq!(encode_plan(OutputFormat::Jpeg, None), EncodePlan::Default(OutputFormat::Jpeg));
    let src = png_bytes(32, 16);
    let at = |q| render(&src, "photo.png", &params(None, None, Some(q)), OutputFormat::Jpeg).unwrap();
    assert_eq!(at(150), at(100));
    assert_ne!(at(10), at(100));
}

#[test]
fn undecodable_original() {
    let r = render(b"not an image", "broken.png", &params(Some(10), None, None), OutputFormat::Png);
    assert!(matches!(r, Err(ServeError::DecodeFailed(_))));
    let r = render(&png_bytes(4, 4), "file.unknown", &params(Some(10), None, None), OutputFormat::Png);
    assert!(matches!(r, Err(ServeError::DecodeFailed(_))));
}

#[test]
fn unencodable_result() {
    let r = render(&png_bytes(4, 4), "wide.png", &params(Some(70000), Some(1), Some(80)), OutputFormat::Jpeg);
    assert!(matches!(r, Err(ServeError::EncodeFailed(_))));
}

#[test]
fn oversized_request() {
    let r = render(&png_bytes(4, 4), "big.png", &params(Some(4000000000), Some(4000000000), None), OutputFormat::Png);
    assert_eq!(r.err(), Some(ServeError::TooLarge));
}

#[test]
fn second_request_is_served_from_cache() {
    let mut store = Store::new();
    store.files.insert(segs("image.png"), png_bytes(200, 100));
    let p = params(Some(100), Some(100), None);
    let first = store.serve("image.png", p).unwrap();
    assert_eq!(first.source, Source::Fresh);
    assert_eq!(first.persist, Some(vec!["w100h100".to_string(), "image.png".to_string()]));
    assert_eq!(store.writes, 1);
    let second = store.serve("image.png", p).unwrap();
    assert_eq!(second.source, Source::Cache);
    assert_eq!(second.body, first.body);
    assert_eq!(store.writes, 1);
    assert_eq!(dims_of(&second.body), (100, 100));
}

#[test]
fn nested_paths_are_mirrored_in_the_cache() {
    let mut store = Store::new();
    store.files.insert(segs("a/b/pic.jpg"), jpeg_bytes(10, 10));
    let reply = store.serve("a/b/pic.jpg", params(None, Some(5), None)).unwrap();
    assert_eq!(reply.content, ContentKind::Jpeg);
    assert_eq!(reply.persist, Some(segs("h5/a/b/pic.jpg")));
}

#[test]
fn original_served_verbatim() {
    let mut store = Store::new();
    let bytes = png_bytes(30, 20);
    store.files.insert(segs("plain.png"), bytes.clone());
    let reply = store.serve("plain.png", params(None, None, None)).unwrap();
    assert_eq!(reply.source, Source::Original);
    assert_eq!(reply.body, bytes);
    assert_eq!(reply.persist, None);
    assert_eq!(store.writes, 0);
}

#[test]
fn no_parameters_never_touch_the_cache() {
    let (_, action) = ImageRequest::begin(segs("x.png"), params(None, None, None));
    match action {
        Action::Resolve(loc) => assert_eq!(loc, segs("x.png")),
        _ => panic!("expected the original to be resolved"),
    }
}

#[test]
fn missing_original_is_not_found() {
    let mut store = Store::new();
    let missing = Some(ServeError::NotFound("nope.png".to_string()));
    assert_eq!(store.serve("nope.png", params(None, None, None)).err(), missing);
    assert_eq!(store.serve("nope.png", params(Some(10), None, Some(5))).err(), missing);
    let e = store.serve("sub/nope.png", params(None, None, None)).err().unwrap();
    assert_eq!(e.message(), "Image not found: \"sub/nope.png\"");
    assert_eq!(store.writes, 0);
}

#[test]
fn unreadable_original_is_not_found() {
    let (mut req, _) = ImageRequest::begin(segs("a.png"), params(None, None, None));
    let found = Resolution::Found {
        root: Store::root(),
        target: vec!["/".to_string(), "srv".to_string(), "images".to_string(), "a.png".to_string()],
        is_file: true,
    };
    assert!(matches!(req.step(Event::Resolved(found)), Action::Read(_)));
    match req.step(Event::Loaded(None)) {
        Action::Reject(e) => assert_eq!(e.message(), "Failed to read image: \"a.png\""),
        _ => panic!("expected a rejection"),
    }
}

#[test]
fn directory_is_not_an_image() {
    let (mut req, _) = ImageRequest::begin(segs("dir"), params(None, None, None));
    let found = Resolution::Found {
        root: Store::root(),
        target: vec!["/".to_string(), "srv".to_string(), "images".to_string(), "dir".to_string()],
        is_file: false,
    };
    assert!(matches!(req.step(Event::Resolved(found)), Action::Reject(ServeError::NotFound(_))));
}

#[test]
fn error_messages() {
    assert_eq!(ServeError::InvalidPath.message(), "Invalid path");
    assert_eq!(ServeError::InvalidRoot.message(), "Invalid base directory");
    assert_eq!(ServeError::NotFound("a/b.png".to_string()).message(), "Image not found: \"a/b.png\"");
    assert_eq!(ServeError::ReadFailed("x\"y".to_string()).message(), "Failed to read image: \"x\\\"y\"");
    assert_eq!(ServeError::DecodeFailed("bad".to_string()).message(), "Failed to load image: bad");
    assert_eq!(ServeError::EncodeFailed("bad".to_string()).message(), "Failed to encode image: bad");
    assert_eq!(ServeError::TooLarge.message(), "Requested size is too large");
}

#[test]
fn each_format_reaches_its_codec() {
    let src = png_bytes(12, 8);
    let cases = [
        (OutputFormat::Png, image::ImageFormat::Png),
        (OutputFormat::Jpeg, image::ImageFormat::Jpeg),
        (OutputFormat::Gif, image::ImageFormat::Gif),
        (OutputFormat::WebP, image::ImageFormat::WebP),
        (OutputFormat::Bmp, image::ImageFormat::Bmp),
    ];
    for (format, expected) in cases {
        let out = render(&src, "in.png", &params(Some(6), None, None), format).unwrap();
        assert_eq!(image::guess_format(&out).unwrap(), expected);
        assert_eq!(dims_of(&out), (6, 4));
    }
}

#[test]
fn decode_error_text_is_kept() {
    match render(b"junk", "bad.png", &params(Some(2), None, None), OutputFormat::Png) {
        Err(ServeError::DecodeFailed(text)) => assert!(!text.is_empty()),
        other => panic!("unexpected {:?}", other.map(|b| b.len())),
    }
}

fn f32_rule(other: u32, given: u32, given_side: u32) -> u32 {
    let ratio = given as f32 / given_side as f32;
    (other as f32 * ratio) as u32
}

#[test]
fn derived_side_matches_single_precision() {
    for src_w in 1..=120u32 {
        for src_h in 1..=120u32 {
            for w in 1..=120u32 {
                assert_eq!(target_dimensions(src_w, src_h, Some(w), None), (w, f32_rule(src_h, w, src_w)));
            }
        }
    }
    let mut x: u64 = 0x2545_f491_4f6c_dd1d;
    for _ in 0..200000 {
        x ^= x << 13;
        x ^= x >> 7;
        x ^= x << 17;
        let a = (x as u32) >> (x % 32);
        let b = ((x >> 32) as u32) >> ((x >> 5) % 32);
        let c = (((x >> 16) as u32) >> ((x >> 10) % 32)).max(1);
        assert_eq!(target_dimensions(c, a, Some(b), None).1, f32_rule(a, b, c), "{} {} {}", a, b, c);
        assert_eq!(target_dimensions(a.max(1), c, None, Some(b)).0, f32_rule(a.max(1), b, c), "{} {} {}", a, b, c);
    }
}

#[test]
fn zero_sizes_count_as_absent() {
    let (_, action) = ImageRequest::begin(segs("z.png"), params(Some(0), Some(0), None));
    match action {
        Action::Resolve(loc) => assert_eq!(loc, segs("z.png")),
        _ => panic!("expected the original to be resolved"),
    }
    let (_, action) = ImageRequest::begin(segs("z.png"), params(Some(0), Some(5), None));
    match action {
        Action::Resolve(loc) => assert_eq!(loc, segs("h5/z.png")),
        _ => panic!("expected the cache to be consulted"),
    }
}
