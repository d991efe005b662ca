use picast::classifier::UrlCategory;
use picast::resolver::{mime_from_extension, Resolver};

fn resolver() -> Resolver {
    Resolver::new()
}

#[test]
fn test_classify_onion() {
    let r = resolver();
    let url = "http://example.onion/video.mp4";
    assert_eq!(r.classify(url).unwrap(), UrlCategory::Onion);
}

#[test]
fn test_classify_hls() {
    let r = resolver();
    let url = "https://cdn.example.com/stream.m3u8";
    assert_eq!(r.classify(url).unwrap(), UrlCategory::HlsManifest);
}

#[test]
fn test_classify_dash() {
    let r = resolver();
    let url = "https://cdn.example.com/stream.mpd";
    assert_eq!(r.classify(url).unwrap(), UrlCategory::DashManifest);
}

#[test]
fn test_classify_direct_media_mp4() {
    let r = resolver();
    let url = "https://cdn.example.com/video.mp4";
    assert_eq!(r.classify(url).unwrap(), UrlCategory::DirectMedia);
}

#[test]
fn test_classify_direct_media_webm() {
    let r = resolver();
    let url = "https://cdn.example.com/video.webm";
    assert_eq!(r.classify(url).unwrap(), UrlCategory::DirectMedia);
}

#[test]
fn test_classify_direct_media_with_query() {
    let r = resolver();
    let url = "https://cdn.example.com/video.mp4?token=abc123";
    assert_eq!(r.classify(url).unwrap(), UrlCategory::DirectMedia);
}

#[test]
fn test_classify_webpage() {
    let r = resolver();
    let url = "https://www.youtube.com/watch?v=abc";
    assert_eq!(r.classify(url).unwrap(), UrlCategory::WebPage);
}

#[test]
fn test_classify_magnet() {
    let r = resolver();
    let url = "magnet:?xt=urn:btih:abc123";
    assert_eq!(r.classify(url).unwrap(), UrlCategory::Magnet);
}

#[test]
fn test_mime_from_extension() {
    assert_eq!(mime_from_extension("video.mp4"), Some("video/mp4".to_string()));
    assert_eq!(mime_from_extension("audio.mp3"), Some("audio/mpeg".to_string()));
    assert_eq!(mime_from_extension("video.webm"), Some("video/webm".to_string()));
    assert_eq!(mime_from_extension("video.mkv"), Some("video/x-matroska".to_string()));
    assert_eq!(mime_from_extension("unknown.xyz"), None);
}

#[test]
fn mime_type_ignores_case_and_query() {
    for path in ["\u{3a3}\u{e9}/Video.mp4", "A\u{3a3}.x/\u{c9}.webm", "clip.mov"] {
        let mime = mime_from_extension(path);
        assert!(mime.is_some());
        assert_eq!(mime_from_extension(&path.to_ascii_uppercase()), mime);
        assert_eq!(mime_from_extension(&path.to_ascii_lowercase()), mime);
        assert_eq!(mime_from_extension(&format!("{}?f=a.xyz?b", path)), mime);
    }
    assert_eq!(mime_from_extension("x?f=a.mp4"), None);
}

#[test]
fn test_mime_from_extension_with_query() {
    assert_eq!(mime_from_extension("video.mp4?token=abc"), Some("video/mp4".to_string()));
}

#[test]
fn classify_youtube() {
    let r = resolver();
    let cat = r.classify("https://www.youtube.com/watch?v=dQw4w9WgXcQ").unwrap();
    assert_eq!(cat, UrlCategory::WebPage);
}

#[test]
fn classify_onion() {
    let r = resolver();
    let cat = r.classify("http://xyz123456.onion/video.mp4").unwrap();
    assert_eq!(cat, UrlCategory::Onion);
}

#[test]
fn classify_hls_manifest() {
    let r = resolver();
    let cat = r.classify("https://cdn.example.com/live/stream.m3u8").unwrap();
    assert_eq!(cat, UrlCategory::HlsManifest);
}

#[test]
fn classify_dash_manifest() {
    let r = resolver();
    let cat = r.classify("https://cdn.example.com/vod/stream.mpd").unwrap();
    assert_eq!(cat, UrlCategory::DashManifest);
}

#[test]
fn classify_direct_media() {
    let r = resolver();
    for ext in &["mp4", "mkv", "webm", "mp3", "flac", "ogg"] {
        let url = format!("https://example.com/media.{}", ext);
        let cat = r.classify(&url).unwrap();
        assert_eq!(cat, UrlCategory::DirectMedia, ".{} should be DirectMedia", ext);
    }
}

#[test]
fn classify_magnet() {
    let r = resolver();
    let cat = r.classify("magnet:?xt=urn:btih:abc123").unwrap();
    assert_eq!(cat, UrlCategory::Magnet);
}
