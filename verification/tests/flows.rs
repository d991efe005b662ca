use base64::Engine;
use picast::classifier::UrlCategory;
use picast::codec::rot13;
use picast::doodstream::{
    doodstream_after_main, doodstream_finish, DoodStep, EmbedPage, FetchedPage,
};
use picast::json::parse_json;
use picast::resolver::{page_proxy, ResolveError, ResolveResult, ResolveStep, Resolver, Route};
use picast::voe::{
    file_code, voe_after_first_page, voe_engine_update, voe_finish, VoeOutcome, VoeStep,
};
use picast::youtube::{youtube_finish, youtube_from_response, youtube_watch_url};

fn encode_blob(json: &str) -> String {
    let engine = base64::engine::general_purpose::STANDARD;
    let inner: String = engine.encode(json.as_bytes()).chars().rev().collect();
    let shifted: String =
        inner.chars().map(|c| char::from_u32(c as u32 + 3).unwrap_or(c)).collect();
    let outer = engine.encode(shifted.as_bytes());
    let markers = ["@$", "^^", "~@", "%?", "*~", "!!", "#&"];
    let chars: Vec<char> = outer.chars().collect();
    let chunk = (chars.len() / markers.len()).max(1);
    let mut scattered = String::new();
    for (i, c) in chars.iter().enumerate() {
        scattered.push(*c);
        if (i + 1) % chunk == 0 && i / chunk < markers.len() {
            scattered.push_str(markers[i / chunk]);
        }
    }
    serde_json::to_string(&vec![rot13(&scattered)]).unwrap()
}

fn voe_page(json: &str) -> String {
    format!(
        r#"<html><head><title>Voe Video</title><meta property="og:title" content="Test Voe Video"/><meta property="og:image" content="https://cdn.example.com/thumb.jpg"/></head><body><script type="application/json">{}</script></body></html>"#,
        encode_blob(json)
    )
}

fn done(step: VoeStep) -> Result<VoeOutcome, ResolveError> {
    match step {
        VoeStep::Done(outcome) => outcome,
        VoeStep::Follow { url } => panic!("unexpected redirect to {}", url),
    }
}

#[test]
fn mock_voe_method8_returns_media_url() {
    let html = voe_page(r#"{"mp4":"https://cdn.example.com/mockvid.mp4"}"#);
    let url = "http://127.0.0.1:8080/testvid";
    let outcome = done(voe_after_first_page(url, &html, vec![])).unwrap();
    assert_eq!(outcome.result.direct_url, "https://cdn.example.com/mockvid.mp4");
    assert_eq!(outcome.result.source_url, url);
    assert_eq!(outcome.result.title, Some("Test Voe Video".into()));
    assert_eq!(outcome.result.thumbnail, Some("https://cdn.example.com/thumb.jpg".into()));
    assert_eq!(outcome.result.category, UrlCategory::DirectMedia);
    assert_eq!(outcome.result.resolver_type, "custom");
    let activation = outcome.activation.unwrap();
    assert_eq!(activation.url, "http://127.0.0.1/engine/update");
    assert!(activation.body.starts_with("data="));
}

#[test]
fn mock_cookie_forwarding() {
    let html = voe_page(r#"{"mp4":"https://cdn.example.com/cookietest.mp4"}"#);
    let cookie = picast::media::cookie_pair("session=abc123; Path=/");
    assert_eq!(cookie, "session=abc123");
    let outcome =
        done(voe_after_first_page("http://127.0.0.1:8080/cookievid", &html, vec![cookie])).unwrap();
    assert_eq!(outcome.result.cookies, vec!["session=abc123".to_string()]);
}

#[test]
fn voe_redirect_is_followed_once() {
    let first = r#"<script>window.location.href = 'https://front.example.com/abc';</script>"#;
    let target = match voe_after_first_page("https://voe.sx/abc", first, vec![]) {
        VoeStep::Follow { url } => url,
        VoeStep::Done(_) => panic!("expected a redirect"),
    };
    assert_eq!(target, "https://front.example.com/abc");
    let html = voe_page(r#"{"source":"https://cdn.example.com/master.m3u8"}"#);
    let outcome = voe_finish("https://voe.sx/abc", &target, &html, vec![]).unwrap();
    assert_eq!(outcome.result.source_url, "https://voe.sx/abc");
    assert_eq!(outcome.result.category, UrlCategory::HlsManifest);
    assert_eq!(outcome.activation.unwrap().url, "https://front.example.com/engine/update");
}

#[test]
fn redirected_page_is_cached_under_its_address() {
    let url = "https://voe.sx/abc";
    let mut r = Resolver::new();
    let route = match r.begin_at(url, 1000).unwrap() {
        ResolveStep::Fetch(route) => route,
        other => panic!("unexpected step {:?}", other),
    };
    let html = voe_page(r#"{"mp4":"https://cdn.example.com/v.mp4"}"#);
    let outcome = voe_finish(url, "https://front.example.com/abc", &html, vec![]).unwrap();
    let result = r.complete_at(&route, Ok(outcome.result), 1000).unwrap();
    assert_eq!(result.source_url, url);
    match r.begin_at(url, 1599).unwrap() {
        ResolveStep::Cached(hit) => {
            assert_eq!(hit.direct_url, "https://cdn.example.com/v.mp4");
            assert_eq!(hit.category, UrlCategory::WebPage);
        },
        other => panic!("unexpected step {:?}", other),
    }
    assert!(matches!(r.begin_at(url, 1600).unwrap(), ResolveStep::Fetch(_)));
}

#[test]
fn voe_empty_page_is_an_error() {
    let err = done(voe_after_first_page("https://voe.sx/none", "<html></html>", vec![]))
        .err()
        .unwrap();
    assert_eq!(
        err.message(),
        "no media found at Voe resolver: could not extract media URL from https://voe.sx/none"
    );
}

#[test]
fn voe_priorities_and_tokens() {
    let html = voe_page(
        r#"{"direct_access_url":"https://cdn.example.com/d.mp4","source":"https://cdn.example.com/s.m3u8","mp4":"https://cdn.example.com/m.mp4","request":"TOK"}"#,
    );
    let outcome = done(voe_after_first_page("https://voe.sx/abc", &html, vec![])).unwrap();
    assert_eq!(outcome.result.direct_url, "https://cdn.example.com/d.mp4&rq=TOK");
    let html = voe_page(
        r#"{"direct_access_url":"https://cdn.example.com/d.m3u8","mp4":"https://cdn.example.com/m.mp4?rq=X","request":"TOK"}"#,
    );
    let outcome = done(voe_after_first_page("https://voe.sx/abc", &html, vec![])).unwrap();
    assert_eq!(outcome.result.direct_url, "https://cdn.example.com/m.mp4?rq=X");
}

#[test]
fn activation_payload_reads_back() {
    let activation = voe_engine_update("https://front.example.com/abc", Some("abc")).unwrap();
    let encoded = activation.body.strip_prefix("data=").unwrap();
    let lowered: String =
        encoded.chars().map(|c| char::from_u32(c as u32 - 3).unwrap()).collect();
    let b64: String = lowered.chars().rev().collect();
    let bytes = base64::engine::general_purpose::STANDARD.decode(b64).unwrap();
    let text = String::from_utf8(bytes).unwrap();
    assert_eq!(
        text,
        r#"{"a1b":"","c3d":"abc","e5f":"","g7h":"0","i9j":"","k1l":"ANGLE (NVIDIA, NVIDIA GeForce GTX 1060 6GB Direct3D11 vs_5_0 ps_5_0, D3D11)","m2n":"","o3p":""}"#
    );
    assert!(voe_engine_update("not a url", None).is_none());
}

#[test]
fn file_code_is_the_last_segment() {
    assert_eq!(file_code("https://voe.sx/e/8aqd75zlo0et"), Some("8aqd75zlo0et".into()));
    assert_eq!(file_code("https://voe.sx/"), None);
    assert_eq!(file_code("not a url"), None);
}

fn embed(step: DoodStep) -> EmbedPage {
    match step {
        DoodStep::Embed(page) => page,
        DoodStep::Done(outcome) => panic!("unexpected end: {:?}", outcome),
    }
}

#[test]
fn mock_doodstream_d_to_e_flow() {
    let url = "http://127.0.0.1:8080/d/abc123";
    let main = FetchedPage {
        html: r#"<html><head><title> Dood </title></head><body><iframe src="/e/abc123"></iframe></body></html>"#.into(),
        cookies: vec!["a=1".into()],
    };
    let next = embed(doodstream_after_main(url, Some(main)));
    assert_eq!(next.url, "http://127.0.0.1:8080/e/abc123");
    assert_eq!(next.title, Some("Dood".into()));
    let page = FetchedPage {
        html: r#"<script>var x = "/pass_md5/abc123/token123";</script>"#.into(),
        cookies: vec!["b=2".into()],
    };
    let result = doodstream_finish(url, next, Some(page)).unwrap();
    assert_eq!(result.direct_url, "http://127.0.0.1/pass_md5/abc123/token123");
    assert_eq!(result.source_url, url);
    assert_eq!(result.cookies, vec!["a=1".to_string(), "b=2".to_string()]);
}

#[test]
fn doodstream_blocked_main_page_tries_embed() {
    let url = "https://playmogo.com/d/abc123";
    let next = embed(doodstream_after_main(url, None));
    assert_eq!(next.url, "https://playmogo.com/e/abc123");
    assert_eq!(next.title, None);
    let err = doodstream_finish(url, next, None).err().unwrap();
    assert_eq!(
        err.message(),
        "no media found at DoodStream resolver: could not extract media URL from https://playmogo.com/d/abc123"
    );
}

#[test]
fn doodstream_open_link_wins() {
    let main = FetchedPage {
        html: r#"<script>var source = 'https://cdn.example.com/v.mp4';</script>"#.into(),
        cookies: vec![],
    };
    match doodstream_after_main("https://playmogo.com/d/abc", Some(main)) {
        DoodStep::Done(Ok(result)) => assert_eq!(result.direct_url, "https://cdn.example.com/v.mp4"),
        other => panic!("unexpected step: {:?}", other),
    }
}

#[test]
fn doodstream_without_embed_is_an_error() {
    match doodstream_after_main("https://playmogo.com/x", None) {
        DoodStep::Done(Err(ResolveError::NoMediaFound(_))) => {},
        other => panic!("unexpected step: {:?}", other),
    }
}

#[test]
fn youtube_watch_address() {
    assert_eq!(
        youtube_watch_url("https://youtu.be/dQw4w9WgXcQ").unwrap(),
        "https://www.youtube.com/watch?v=dQw4w9WgXcQ"
    );
    assert_eq!(
        youtube_watch_url("https://example.com/x").err().unwrap().message(),
        "no media found at could not extract YouTube video ID from https://example.com/x"
    );
}

const COMBINED: &str = r#"{"videoDetails":{"title":"T","lengthSeconds":"61","thumbnail":{"thumbnails":[{"url":"https://i/1.jpg"}]}},"streamingData":{"formats":[{"mimeType":"video/mp4; codecs=\"avc1\"","height":360,"url":"https://v/360","contentLength":"1234"},{"mimeType":"video/mp4; codecs=\"avc1\"","height":720,"url":"https://v/720","contentLength":"99"},{"mimeType":"video/mp4; codecs=\"avc1\"","height":2160,"url":"https://v/2160"},{"mimeType":"video/webm; codecs=\"vp9\"","height":1080,"url":"https://v/vp9"}]}}"#;

fn from_response(text: &str) -> Result<ResolveResult, ResolveError> {
    youtube_from_response("https://youtu.be/x", true, &parse_json(text).unwrap())
}

#[test]
fn youtube_combined_stream() {
    let r = from_response(COMBINED).unwrap();
    assert_eq!(r.direct_url, "https://v/720");
    assert_eq!(r.height, Some(720));
    assert_eq!(r.width, Some(1280));
    assert_eq!(r.content_length, Some(99));
    assert_eq!(r.duration, Some(61000));
    assert_eq!(r.title, Some("T".into()));
    assert_eq!(r.thumbnail, Some("https://i/1.jpg".into()));
    assert_eq!(r.audio_url, None);
    assert_eq!(r.vcodec, Some("avc1".into()));
    assert_eq!(r.acodec, Some("mp4a".into()));
    assert!(r.used_tor);
    assert_eq!(r.category, UrlCategory::WebPage);
}

#[test]
fn youtube_adaptive_streams() {
    let r = from_response(
        r#"{"streamingData":{"adaptiveFormats":[{"mimeType":"video/mp4; codecs=\"avc1\"","height":1080,"url":"https://v/1080"},{"mimeType":"video/mp4; codecs=\"avc1\"","height":1440,"url":"https://v/1440"},{"mimeType":"audio/mp4; codecs=\"mp4a\"","bitrate":128000,"url":"https://a/128"},{"mimeType":"audio/mp4; codecs=\"mp4a\"","bitrate":48000,"url":"https://a/48"}]}}"#,
    )
    .unwrap();
    assert_eq!(r.direct_url, "https://v/1080");
    assert_eq!(r.audio_url, Some("https://a/128".into()));
    assert_eq!(r.width, Some(1920));
    assert_eq!(r.duration, None);
}

#[test]
fn youtube_failures() {
    let text = |r: Result<ResolveResult, ResolveError>| r.err().unwrap().message();
    assert!(text(from_response("{}")).contains("streamingData not found"));
    assert!(text(from_response(r#"{"streamingData":{}}"#)).contains("no adaptiveFormats"));
    assert!(text(from_response(r#"{"streamingData":{"adaptiveFormats":[]}}"#))
        .contains("no suitable H.264"));
    assert!(text(youtube_finish("u", false, "<html></html>"))
        .contains("ytInitialPlayerResponse not found"));
    assert!(text(youtube_finish("u", false, "var ytInitialPlayerResponse = {nope};"))
        .contains("failed to parse ytInitialPlayerResponse JSON: "));
}

#[test]
fn youtube_page_to_result() {
    let html = format!("<script>var ytInitialPlayerResponse = {};</script>", COMBINED);
    let r = youtube_finish("https://youtu.be/x", false, &html).unwrap();
    assert_eq!(r.direct_url, "https://v/720");
    assert!(!r.used_tor);
}

#[test]
fn resolve_direct_media_and_cache() {
    let mut r = Resolver::new();
    let url = "https://cdn.example.com/video.mp4?x=1";
    let first = match r.begin_at(url, 1000).unwrap() {
        ResolveStep::Done(result) => result,
        other => panic!("unexpected step {:?}", other),
    };
    match r.begin_at(url, 1599).unwrap() {
        ResolveStep::Cached(result) => assert_eq!(result.direct_url, url),
        other => panic!("unexpected step {:?}", other),
    }
    assert_eq!(first.category, UrlCategory::DirectMedia);
    assert_eq!(first.direct_url, url);
    assert_eq!(first.mime_type, Some("video/mp4".into()));
    assert!(!first.used_tor);
    assert_eq!(r.cache.len(), 1);
    assert!(r.cache.get_at(url, 1599).is_some());
    assert!(r.cache.get_at(url, 1600).is_none());
    r.invalidate_cache(url);
    assert!(r.cache.is_empty());
}

#[test]
fn resolve_manifests() {
    let mut r = Resolver::new();
    for (url, mime) in [
        ("https://cdn.example.com/stream.m3u8", "application/vnd.apple.mpegurl"),
        ("https://cdn.example.com/stream.mpd", "application/dash+xml"),
    ] {
        match r.begin(url).unwrap() {
            ResolveStep::Done(result) => assert_eq!(result.mime_type, Some(mime.into())),
            other => panic!("unexpected step {:?}", other),
        }
    }
}

fn route(url: &str) -> Route {
    match Resolver::new().begin(url).unwrap() {
        ResolveStep::Fetch(route) => route,
        other => panic!("unexpected step {:?}", other),
    }
}

#[test]
fn routes_by_host() {
    assert!(matches!(route("https://voe.sx/abc"), Route::Voe { host } if host == "voe.sx"));
    assert!(
        matches!(route("https://dood.to/d/abc"), Route::DoodStream { host } if host == "dood.to")
    );
    assert!(matches!(
        route("https://vimeo.com/123"),
        Route::Ytdlp { key, onion: false } if key == "vimeo.com"
    ));
    assert!(matches!(
        route("http://xyz.onion/v.mp4"),
        Route::Ytdlp { key, onion: true } if key == "xyz.onion"
    ));
}

#[test]
fn refused_urls() {
    let mut r = Resolver::new();
    assert_eq!(
        r.begin("magnet:?xt=urn:btih:abc123").err().unwrap().message(),
        "no media found at magnet:?xt=urn:btih:abc123"
    );
    assert!(matches!(r.begin("not a url"), Err(ResolveError::InvalidUrl(_))));
    assert!(matches!(
        r.resolve_direct("https://vimeo.com/123"),
        Err(ResolveError::NoMediaFound(_))
    ));
    assert!(matches!(r.resolve_direct("not a url"), Err(ResolveError::InvalidUrl(_))));
    assert_eq!(
        r.resolve_direct("https://e.com/v.webm").unwrap().mime_type,
        Some("video/webm".into())
    );
}

#[test]
fn onion_results_are_reported_through_tor() {
    let mut r = Resolver::new();
    let route = route("http://xyz.onion/page");
    let fetched = r.resolve_direct("https://e.com/v.mp4").unwrap();
    assert!(!fetched.used_tor);
    let result = r.complete(&route, Ok(fetched)).unwrap();
    assert!(result.used_tor);
    assert_eq!(result.category, UrlCategory::Onion);
    let failed = r.complete(&route, Err(ResolveError::Network("down".into())));
    assert_eq!(failed.err().unwrap().message(), "network error: down");
    assert_eq!(
        ResolveError::TorUnavailable("x".into()).message(),
        "Tor proxy unavailable: x"
    );
}

#[test]
fn proxies() {
    assert_eq!(
        page_proxy("picast-abc", "127.0.0.1:9050"),
        Some("socks5h://picast-abc@127.0.0.1:9050".into())
    );
    assert_eq!(page_proxy("picast-abc", ""), None);
}
