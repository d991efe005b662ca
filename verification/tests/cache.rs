use picast::cache::ResolveCache;
use picast::classifier::UrlCategory;
use picast::resolver::ResolveResult;

fn test_result(url: &str) -> ResolveResult {
    ResolveResult {
        source_url: url.to_owned(),
        direct_url: format!("{}?direct=1", url),
        audio_url: None,
        category: UrlCategory::DirectMedia,
        mime_type: Some("video/mp4".into()),
        content_length: Some(1024),
        used_tor: false,
        title: Some("Test Video".into()),
        duration: Some(300000),
        thumbnail: None,
        vcodec: Some("avc1".into()),
        acodec: Some("mp4a".into()),
        width: Some(1920),
        height: Some(1080),
        subtitle_tracks: vec!["en".into(), "es".into()],
        cookies: vec![],
        resolver_type: String::new(),
    }
}

fn test_result_with_tor(url: &str) -> ResolveResult {
    let mut r = test_result(url);
    r.used_tor = true;
    r.category = UrlCategory::WebPage;
    r.title = Some("YouTube Video".into());
    r
}

#[test]
fn cache_insert_and_get() {
    let mut cache = ResolveCache::new();
    let url = "https://example.com/video.mp4";
    let result = test_result(url);

    cache.insert(url, result);
    assert_eq!(cache.len(), 1);

    let cached = cache.get(url);
    assert!(cached.is_some());
    let cached = cached.unwrap();
    assert_eq!(cached.direct_url, "https://example.com/video.mp4?direct=1");
    assert_eq!(cached.category, UrlCategory::DirectMedia);
    assert_eq!(cached.mime_type, Some("video/mp4".into()));
    assert_eq!(cached.content_length, Some(1024));
    assert!(!cached.used_tor);
    assert_eq!(cached.title, Some("Test Video".into()));
    assert_eq!(cached.duration, Some(300000));
    assert_eq!(cached.vcodec, Some("avc1".into()));
    assert_eq!(cached.acodec, Some("mp4a".into()));
    assert_eq!(cached.width, Some(1920));
    assert_eq!(cached.height, Some(1080));
    assert_eq!(cached.subtitle_tracks, vec!["en", "es"]);
}

#[test]
fn cache_miss() {
    let cache = ResolveCache::new();
    assert!(cache.get("https://example.com/not-found").is_none());
}

#[test]
fn cache_insert_overwrites_existing_key() {
    let mut cache = ResolveCache::new();
    let url = "https://example.com/video.mp4";

    let mut result1 = test_result(url);
    result1.title = Some("First Title".into());
    cache.insert(url, result1);

    let mut result2 = test_result(url);
    result2.title = Some("Second Title".into());
    cache.insert(url, result2);

    // Should have only 1 entry (overwritten, not duplicated).
    assert_eq!(cache.len(), 1);

    // Should return the most recent value.
    let cached = cache.get(url).unwrap();
    assert_eq!(cached.title, Some("Second Title".into()));
}

#[test]
fn cache_tor_result_roundtrip() {
    let mut cache = ResolveCache::new();
    let url = "https://www.youtube.com/watch?v=abc";
    let result = test_result_with_tor(url);

    cache.insert(url, result);

    let cached = cache.get(url).unwrap();
    assert!(cached.used_tor);
    assert_eq!(cached.category, UrlCategory::WebPage);
    assert_eq!(cached.title, Some("YouTube Video".into()));
}

#[test]
fn cache_all_categories() {
    let mut cache = ResolveCache::new();

    for (url, category) in [
        ("https://example.com/v.mp4", UrlCategory::DirectMedia),
        ("https://example.com/stream.m3u8", UrlCategory::HlsManifest),
        ("https://example.com/stream.mpd", UrlCategory::DashManifest),
        ("https://youtube.com/watch?v=abc", UrlCategory::WebPage),
        ("http://xyz.onion/v.mp4", UrlCategory::Onion),
    ] {
        let mut result = test_result(url);
        result.category = category;
        cache.insert(url, result);
    }

    assert_eq!(cache.len(), 5);

    // Verify each category roundtrips correctly.
    assert_eq!(
        cache.get("https://example.com/v.mp4").unwrap().category,
        UrlCategory::DirectMedia
    );
    assert_eq!(
        cache.get("https://example.com/stream.m3u8").unwrap().category,
        UrlCategory::HlsManifest
    );
    assert_eq!(
        cache.get("https://example.com/stream.mpd").unwrap().category,
        UrlCategory::DashManifest
    );
    assert_eq!(
        cache.get("https://youtube.com/watch?v=abc").unwrap().category,
        UrlCategory::WebPage
    );
    assert_eq!(cache.get("http://xyz.onion/v.mp4").unwrap().category, UrlCategory::Onion);
}

#[test]
fn cache_clear() {
    let mut cache = ResolveCache::new();
    cache.insert("url1", test_result("url1"));
    cache.insert("url2", test_result("url2"));
    assert_eq!(cache.len(), 2);

    cache.clear();

    assert!(cache.is_empty());
    assert_eq!(cache.len(), 0);
}

#[test]
fn cache_default() {
    let cache = ResolveCache::default();
    assert!(cache.is_empty());
}

#[test]
fn cache_clear_then_reinsert() {
    let mut cache = ResolveCache::new();
    cache.insert("url1", test_result("url1"));
    cache.clear();
    assert!(cache.is_empty());

    // Should be able to insert again after clear.
    cache.insert("url2", test_result("url2"));
    assert_eq!(cache.len(), 1);
    assert!(cache.get("url2").is_some());
}

#[test]
fn cache_size_tracking() {
    let mut cache = ResolveCache::new();
    assert_eq!(cache.len(), 0);

    for i in 0..5 {
        let url = format!("https://example.com/video{}.mp4", i);
        cache.insert(&url, test_result(&url));
    }
    assert_eq!(cache.len(), 5);
}

#[test]
fn cache_subtitle_tracks_roundtrip() {
    let mut cache = ResolveCache::new();
    let url = "https://example.com/video.mp4";
    let mut result = test_result(url);
    result.subtitle_tracks = vec!["en".into(), "es".into(), "fr".into(), "de".into()];
    cache.insert(url, result);

    let cached = cache.get(url).unwrap();
    let mut tracks = cached.subtitle_tracks.clone();
    tracks.sort();
    assert_eq!(tracks, vec!["de", "en", "es", "fr"]);
}

#[test]
fn cache_empty_subtitle_tracks() {
    let mut cache = ResolveCache::new();
    let url = "https://example.com/video.mp4";
    let mut result = test_result(url);
    result.subtitle_tracks = vec![];
    cache.insert(url, result);

    let cached = cache.get(url).unwrap();
    assert!(cached.subtitle_tracks.is_empty());
}

#[test]
fn cache_none_fields_roundtrip() {
    let mut cache = ResolveCache::new();
    let url = "https://example.com/plain";
    let result = ResolveResult {
        source_url: url.to_owned(),
        direct_url: url.to_owned(),
        audio_url: None,
        category: UrlCategory::DirectMedia,
        mime_type: None,
        content_length: None,
        used_tor: false,
        title: None,
        duration: None,
        thumbnail: None,
        vcodec: None,
        acodec: None,
        width: None,
        height: None,
        subtitle_tracks: vec![],
        cookies: vec![],
        resolver_type: String::new(),
    };
    cache.insert(url, result);

    let cached = cache.get(url).unwrap();
    assert!(cached.mime_type.is_none());
    assert!(cached.content_length.is_none());
    assert!(cached.title.is_none());
    assert!(cached.duration.is_none());
    assert!(cached.thumbnail.is_none());
    assert!(cached.vcodec.is_none());
    assert!(cached.acodec.is_none());
    assert!(cached.width.is_none());
    assert!(cached.height.is_none());
    assert!(cached.subtitle_tracks.is_empty());
}

#[test]
fn cache_is_empty_on_new() {
    let cache = ResolveCache::new();
    assert!(cache.is_empty());
    assert_eq!(cache.len(), 0);
}

#[test]
fn cache_with_ttl_custom_duration() {
    let cache = ResolveCache::with_ttl(3600);
    assert!(cache.is_empty());
    drop(cache); // Just verifying construction works without panic.
}

#[test]
fn cache_many_entries() {
    let mut cache = ResolveCache::new();

    // Insert 50 entries.
    for i in 0..50 {
        let url = format!("https://example.com/video{}.mp4", i);
        cache.insert(&url, test_result(&url));
    }
    assert_eq!(cache.len(), 50);

    // Verify all entries are retrievable.
    for i in 0..50 {
        let url = format!("https://example.com/video{}.mp4", i);
        assert!(cache.get(&url).is_some(), "entry {} should be in cache", i);
    }
}
