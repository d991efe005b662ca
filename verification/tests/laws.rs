use picast::cache::{make_row, row_to_resolve_result, ResolveCache};
use picast::classifier::UrlCategory;
use picast::codec::{
    encode_activation, pad_base64, raise_chars, rot13, safe_b64_decode, shift_chars,
};
use picast::config::{choose_source, missing_file_message, AppConfig, ConfigSource, Environment};
use picast::deobfuscation::{
    append_rq, build_pipeline, extract_content, extract_url_from_deobfuscated, get_json_by_path,
    DeobfuscationPipeline, DeobfuscationStep, JsonParseStep, RegexExtractStep, ReverseStep, Step,
};
use picast::json::parse_json;
use picast::media::{
    choose_level, extract_document_title, extract_link_from_text, extract_meta_content,
    extract_mp4_url_from_text, extract_title, is_decoy, try_fallback_urls,
};
use picast::provider::{
    provider_id, ContentExtraction, DeobfuscationPipelineEntry, DomainMatchKind, DomainPattern,
    ProviderConfig, ProviderConfigError, ProviderFile, ProviderRegistry, UrlExtractionRule,
    UrlTransform,
};
use picast::provider::DeobfuscationStep as Def;
use picast::resolver::ResolveResult;
use picast::state_machine::{
    CastCommand, ErrorCode, Session, SessionState, SessionStateKind, StateMachineError,
};
use picast::text::{number_text, parse_number, str_remove_all, str_split, str_trim, text_before};
use picast::ytdlp::{
    ytdlp_args, ytdlp_failure, ytdlp_not_started, ytdlp_outcome, ytdlp_timed_out, RequestedFormat,
    YtdlpOutput,
};

#[test]
fn codecs_are_undone() {
    let text = "Hello, W\u{f6}rld! 123";
    assert_eq!(rot13(&rot13(text)), text);
    assert_eq!(shift_chars(&raise_chars(text, 3), 3), text);
    let encoded = encode_activation("{\"c3d\":\"abc\"}");
    let plain: String = shift_chars(&encoded, 3).chars().rev().collect();
    assert_eq!(safe_b64_decode(&plain), Some("{\"c3d\":\"abc\"}".into()));
    assert_eq!(pad_base64("SGk"), "SGk=");
    assert_eq!(pad_base64("\u{e9}\u{e9}\u{e9}"), "\u{e9}\u{e9}\u{e9}==");
}

#[test]
fn surrogates_are_skipped_by_shifts() {
    assert_eq!(shift_chars("\u{e000}\u{1}", 3), "\u{e000}\u{1}");
    assert_eq!(raise_chars("\u{d7ff}", 1), "\u{d7ff}");
}

#[test]
fn text_primitives() {
    assert_eq!(str_remove_all("aabb", "ab"), "ab");
    assert_eq!(str_remove_all("abc", ""), "abc");
    assert_eq!(str_split("a..b", '.'), vec!["a", "", "b"]);
    assert_eq!(str_split("", '.'), vec![""]);
    assert_eq!(str_trim("\u{3000} x \t"), "x");
    assert_eq!(parse_number("+42", 100), Some(42));
    assert_eq!(parse_number("", 100), None);
    assert_eq!(parse_number("+", 100), None);
    assert_eq!(parse_number("-1", 100), None);
    assert_eq!(parse_number("18446744073709551615", u64::MAX), Some(u64::MAX));
    assert_eq!(parse_number("18446744073709551616", u64::MAX), None);
    assert_eq!(parse_number("0000101", 100), None);
    assert_eq!(number_text(0), "0");
    assert_eq!(number_text(u64::MAX), "18446744073709551615");
    assert!(text_before("2024-01-01T00:00:00+00:00", "2024-01-01T00:00:01+00:00"));
    assert!(!text_before("a", "a"));
    assert!(text_before("a", "ab"));
}

#[test]
fn category_names_round_trip() {
    for c in [
        UrlCategory::DirectMedia,
        UrlCategory::HlsManifest,
        UrlCategory::DashManifest,
        UrlCategory::WebPage,
        UrlCategory::Magnet,
        UrlCategory::Onion,
    ] {
        assert_eq!(UrlCategory::from_str(&c.name()), c);
    }
    assert_eq!(UrlCategory::from_str("other"), UrlCategory::DirectMedia);
}

fn result(url: &str) -> ResolveResult {
    ResolveResult {
        source_url: url.into(),
        direct_url: "https://cdn/v.mp4".into(),
        audio_url: Some("https://cdn/a.mp4".into()),
        category: UrlCategory::WebPage,
        mime_type: None,
        content_length: Some(u64::MAX),
        used_tor: true,
        title: Some("T".into()),
        duration: Some(1 << 63),
        thumbnail: None,
        vcodec: None,
        acodec: Some("opus".into()),
        width: Some(u32::MAX),
        height: Some(1 << 31),
        subtitle_tracks: vec!["en".into(), "q\"x".into()],
        cookies: vec!["c=1".into()],
        resolver_type: "custom".into(),
    }
}

#[test]
fn cached_rows_read_back() {
    let row = make_row(&result("u"), 5);
    assert_eq!(row.content_length, Some(-1));
    assert_eq!(row.duration, Some(i64::MIN));
    assert_eq!(row.width, Some(-1));
    assert_eq!(row.height, Some(i32::MIN));
    assert_eq!(row.category, "web_page");
    assert_eq!(row.subtitle_tracks, r#"["en","q\"x"]"#);
    let back = row_to_resolve_result(&row);
    assert_eq!(back.content_length, Some(u64::MAX));
    assert_eq!(back.duration, Some(1 << 63));
    assert_eq!(back.width, Some(u32::MAX));
    assert_eq!(back.height, Some(1 << 31));
    assert_eq!(back.subtitle_tracks, vec!["en", "q\"x"]);
    assert!(back.used_tor);
    assert!(back.cookies.is_empty());
    assert_eq!(back.resolver_type, "");
    let mut broken = row;
    broken.subtitle_tracks = "oops".into();
    broken.category = "oops".into();
    let back = row_to_resolve_result(&broken);
    assert!(back.subtitle_tracks.is_empty());
    assert_eq!(back.category, UrlCategory::DirectMedia);
}

#[test]
fn cache_evict_expired() {
    let mut cache = ResolveCache::with_ttl(1);
    cache.insert_at(&result("https://example.com/video1.mp4"), 100);
    assert_eq!(cache.len(), 1);
    cache.evict_expired_at(100);
    assert_eq!(cache.len(), 1);
    cache.evict_expired_at(103);
    assert_eq!(cache.len(), 0, "expired entries should be evicted");
    cache.evict_expired();
    assert!(cache.is_empty());
}

#[test]
fn eviction_is_exact() {
    let mut cache = ResolveCache::with_ttl(600);
    cache.insert_at(&result("old"), 1000);
    cache.insert_at(&result("new"), 1001);
    cache.evict_expired_at(1599);
    assert_eq!(cache.len(), 2);
    assert!(cache.get_at("old", 1600).is_none());
    assert!(cache.get_at("new", 1600).is_some());
    cache.evict_expired_at(1600);
    assert_eq!(cache.len(), 1);
    assert!(cache.get_at("old", 1600).is_none());
    assert!(cache.get_at("new", 1600).is_some());
    cache.evict_expired_at(1601);
    assert!(cache.is_empty());
    let mut eternal = ResolveCache::with_ttl(1);
    eternal.insert_at(&result("a"), 5);
    eternal.evict_expired_at(i64::MIN);
    assert!(eternal.is_empty());
}

#[test]
fn cache_expired_entry_not_returned() {
    let mut cache = ResolveCache::with_ttl(2);
    let url = "https://example.com/video.mp4";
    cache.insert_at(&result(url), 100);
    assert!(cache.get_at(url, 101).is_some());
    assert!(cache.get_at(url, 102).is_none(), "expired entry should not be returned");
}

#[test]
fn cache_multiple_entries_independent_expiry() {
    let mut cache = ResolveCache::with_ttl(3);
    cache.insert_at(&result("url1"), 100);
    cache.insert_at(&result("url2"), 102);
    assert!(cache.get_at("url1", 104).is_none(), "url1 should have expired");
    assert!(cache.get_at("url2", 104).is_some(), "url2 should still be valid");
}

#[test]
fn cache_drops_rows_after_an_hour() {
    let mut cache = ResolveCache::with_ttl(10_000);
    cache.insert_at(&result("old"), 0);
    cache.insert_at(&result("new"), 3600);
    assert_eq!(cache.len(), 2);
    cache.insert_at(&result("newer"), 3601);
    assert_eq!(cache.len(), 2);
    assert!(cache.get_at("old", 3601).is_none());
    cache.delete("new");
    assert_eq!(cache.len(), 1);
}

#[test]
fn cache_get_or_insert() {
    let mut cache = ResolveCache::new();
    let first = cache.get_or_insert_with("u", || result("u")).unwrap();
    assert_eq!(first.resolver_type, "custom");
    let second =
        cache.get_or_insert_with("u", || panic!("must be served from the cache")).unwrap();
    assert_eq!(second.direct_url, first.direct_url);
    assert_eq!(second.resolver_type, "");
    let rows = vec![make_row(&result("u"), 1), make_row(&result("u"), 2)];
    assert_eq!(ResolveCache::from_rows(rows, 600).len(), 1);
}

#[test]
fn chosen_levels() {
    let links = |v: &[(&str, &str)]| -> Vec<(String, String)> {
        v.iter().map(|(q, u)| (q.to_string(), u.to_string())).collect()
    };
    assert_eq!(choose_level(&links(&[("1080", "a?sp=6000"), ("480", "b?sp=1500")])), 1);
    assert_eq!(choose_level(&links(&[("1080", "a?sp=5999"), ("480", "b?sp=1499")])), 0);
    assert_eq!(choose_level(&links(&[("1080", "a?sp=10"), ("720", "b?sp=10")])), 1);
    assert_eq!(choose_level(&links(&[("odd", "a?sp=1"), ("240", "b?x=1&sp=1")])), 0);
}

#[test]
fn decoys_are_never_extracted() {
    assert!(is_decoy("https://TEST-videos.co.uk/x"));
    assert_eq!(
        extract_link_from_text(
            "https://a.com/bbb.mp4 https://a.com/ok.m3u8 https://sample-videos.com/x.mp4"
        ),
        Some("https://a.com/ok.m3u8".into())
    );
}

#[test]
fn page_metadata() {
    let html = r#"<html><head><title> Plain </title><meta name="twitter:title" content="Tw"/></head></html>"#;
    assert_eq!(extract_document_title(html), Some("Plain".into()));
    assert_eq!(extract_meta_content(html, "og:title"), None);
    assert_eq!(extract_title(html), Some("Tw".into()));
    assert_eq!(extract_title("<title>  </title>"), None);
}

#[test]
fn pipelines_compose_and_fail() {
    let defs = |names: &[&str]| -> DeobfuscationPipeline {
        let steps: Vec<picast::provider::DeobfuscationStep> = names
            .iter()
            .map(|p| picast::provider::DeobfuscationStep::RegexExtract { pattern: p.to_string() })
            .collect();
        build_pipeline(&steps)
    };
    assert_eq!(defs(&["a(.*)", "[broken", "b(.*)"]).len(), 2);
    assert_eq!(defs(&["a(.*)", "b(.*)"]).run("xaybz"), Some("z".into()));
    assert_eq!(defs(&["a(.*)", "q(.*)", "b(.*)"]).run("xaybz"), None);
    assert_eq!(DeobfuscationPipeline::default().run("x"), Some("x".into()));
    assert!(DeobfuscationPipeline::new().is_empty());
    let step = Step::RegexExtract(RegexExtractStep { pattern: "(x)|y".into() });
    assert_eq!(step.apply("y"), None);
    assert_eq!(step.name(), "regex_extract");
}

#[test]
fn pipelines_take_custom_steps() {
    let mut pipeline = DeobfuscationPipeline::new();
    pipeline.add_step(Step::Custom(Box::new(JsonParseStep { key: "k".into() })));
    pipeline.add_step(Step::Reverse(ReverseStep));
    assert_eq!(pipeline.len(), 2);
    assert_eq!(pipeline.run(r#"{"k":"ab"}"#), Some("ba".into()));
    assert_eq!(pipeline.run("ab"), None);
    assert_eq!(Step::Custom(Box::new(ReverseStep)).name(), "reverse");
}

#[test]
fn json_values_as_text() {
    let step = JsonParseStep { key: "a.b".into() };
    assert_eq!(step.apply(r#"{"a":{"b":{"z":[1.5,null,true],"c":"\u00e9\n"}}}"#),
        Some("{\"c\":\"\u{e9}\\n\",\"z\":[1.5,null,true]}".into()));
    assert_eq!(step.apply(r#"{"a":{"b":7}}"#), Some("7".into()));
    assert_eq!(step.apply(r#"{"a":[1]}"#), None);
    assert_eq!(step.apply("{"), None);
    let document = parse_json(r#"{"a":{"b":"c"}}"#).unwrap();
    assert_eq!(get_json_by_path(&document, "a.b").unwrap().as_text().unwrap(), "c");
    assert!(get_json_by_path(&document, "a.").is_none());
    assert!(parse_json("nope").is_err());
}

#[test]
fn selectors_and_redirects_in_extraction() {
    let html = r#"<div data-x="">one</div><div data-x="v"> </div><p> two </p>"#;
    let css = |selector: &str, attribute: Option<&str>| ContentExtraction::CssSelector {
        selector: selector.into(),
        attribute: attribute.map(|a| a.into()),
    };
    assert_eq!(extract_content(html, &css("div", Some("data-x"))), Some("v".into()));
    assert_eq!(extract_content(html, &css("p", None)), Some("two".into()));
    assert_eq!(extract_content(html, &css(">>", None)), None);
    let inner = Box::new(ContentExtraction::RegexMatch { pattern: "t(w)o".into() });
    assert_eq!(
        extract_content(html, &ContentExtraction::JsRedirectThen { inner }),
        Some("w".into())
    );
}

fn key_rule(key: &str, priority: u32, prefer_mp4: bool) -> UrlExtractionRule {
    UrlExtractionRule::JsonKey { key: key.into(), priority, append_rq_token: true, prefer_mp4 }
}

#[test]
fn rules_by_priority_then_position() {
    let json = r#"{"a":"https://x/a","b":"https://x/b","q":{"480":"https://x/480.mp4","720":"https://x/720.m3u8"},"request":"R","file_code":"F"}"#;
    let pick = |rules: &[UrlExtractionRule]| {
        extract_url_from_deobfuscated(json, rules, &[], &[]).map(|e| e.url)
    };
    assert_eq!(
        pick(&[key_rule("a", 5, true), key_rule("b", 1, true)]),
        Some("https://x/b?rq=R".into())
    );
    assert_eq!(
        pick(&[key_rule("a", 1, true), key_rule("b", 1, true)]),
        Some("https://x/a?rq=R".into())
    );
    assert_eq!(
        pick(&[key_rule("none", 0, true), key_rule("q", 1, true)]),
        Some("https://x/480.mp4?rq=R".into())
    );
    assert_eq!(pick(&[key_rule("q", 1, false)]), Some("https://x/720.m3u8?rq=R".into()));
    let by_regex = UrlExtractionRule::RegexUrl { pattern: "(https://x/b)".into(), priority: 0 };
    assert_eq!(pick(&[key_rule("a", 1, true), by_regex]), Some("https://x/b".into()));
    assert_eq!(pick(&[]), None);
    let found =
        extract_url_from_deobfuscated(json, &[key_rule("a", 1, true)], &[], &[]).unwrap();
    assert_eq!(found.file_code, Some("F".into()));
    assert!(extract_url_from_deobfuscated("[]", &[key_rule("a", 1, true)], &[], &[]).is_none());
    assert_eq!(append_rq(&append_rq("https://x/a", "R"), "S"), "https://x/a?rq=R");
}

#[test]
fn preferring_mp4_skips_playlists() {
    let json = r#"{"source":"https://cdn.example.com/stream.m3u8","levels":{"720":"https://cdn.example.com/720.M3U8"},"other":"https://cdn.example.com/video.webm"}"#;
    let pick = |rules: &[UrlExtractionRule]| {
        extract_url_from_deobfuscated(json, rules, &[], &[]).map(|e| e.url)
    };
    assert_eq!(pick(&[key_rule("source", 1, true)]), None);
    assert_eq!(pick(&[key_rule("levels", 1, true)]), None);
    assert_eq!(
        pick(&[key_rule("source", 1, true), key_rule("levels", 2, true), key_rule("other", 3, true)]),
        Some("https://cdn.example.com/video.webm".into())
    );
    assert_eq!(
        pick(&[key_rule("source", 1, false)]),
        Some("https://cdn.example.com/stream.m3u8".into())
    );
    assert_eq!(
        pick(&[key_rule("levels", 1, false)]),
        Some("https://cdn.example.com/720.M3U8".into())
    );
}

#[test]
fn levels_by_preference_and_rate_limit() {
    let json = r#"{"plain":{"1080":"https://x/1080.mp4","720":"https://x/720.mp4"},"limited":{"1080":"https://x/1080.mp4?sp=7000","480":"https://x/480.mp4?sp=1600","720":"https://x/720.mp4?sp=380"},"slow":{"480":"https://x/480.mp4?sp=200","720":"https://x/720.mp4?sp=380"},"hls":{"480":"https://x/480.m3u8","720":"https://x/720.m3u8?sp=380","360":"https://x/360.mp4"}}"#;
    let pick = |key: &str, prefer_mp4: bool| {
        extract_url_from_deobfuscated(json, &[key_rule(key, 1, prefer_mp4)], &[], &[])
            .map(|e| e.url)
    };
    for prefer_mp4 in [true, false] {
        assert_eq!(pick("plain", prefer_mp4), Some("https://x/720.mp4".into()));
        assert_eq!(pick("limited", prefer_mp4), Some("https://x/480.mp4?sp=1600".into()));
        assert_eq!(pick("slow", prefer_mp4), Some("https://x/720.mp4?sp=380".into()));
    }
    assert_eq!(pick("hls", true), Some("https://x/360.mp4".into()));
    assert_eq!(pick("hls", false), Some("https://x/480.m3u8".into()));
}

#[test]
fn playlists_are_no_mp4_links() {
    let page = r#"<a href="https://cdn.example.com/v.mp4/index.m3u8">"#;
    assert_eq!(try_fallback_urls(page), None);
    assert_eq!(extract_mp4_url_from_text(page), None);
    assert_eq!(
        extract_link_from_text(page),
        Some("https://cdn.example.com/v.mp4/index.m3u8".into())
    );
    let both = format!("{} <a href=\"https://cdn.example.com/w.mp4\">", page);
    assert_eq!(try_fallback_urls(&both), Some("https://cdn.example.com/w.mp4".into()));
    assert_eq!(extract_link_from_text(&both), Some("https://cdn.example.com/w.mp4".into()));
    let assigned = format!("var source = 'https://cdn.example.com/s.m3u8'; {}", both);
    assert_eq!(try_fallback_urls(&assigned), Some("https://cdn.example.com/w.mp4".into()));
}

fn provider(name: &str, pattern: &str) -> ProviderConfig {
    ProviderConfig {
        name: name.into(),
        enabled: true,
        domain_patterns: vec![DomainPattern {
            pattern: pattern.into(),
            kind: DomainMatchKind::Suffix,
        }],
        ..Default::default()
    }
}

fn file(id: &str, config: Result<ProviderConfig, ProviderConfigError>) -> ProviderFile {
    ProviderFile { path: format!("providers.d/{}.toml", id), id: id.into(), config }
}

#[test]
fn providers_load_in_order() {
    let mut off = provider("Off", "off.com");
    off.enabled = false;
    let files = vec![
        file("voe", Ok(provider("Voe", "voe.sx"))),
        file("off", Ok(off)),
        file("dood", Ok(provider("Dood", "voe.sx"))),
    ];
    let registry = ProviderRegistry::load_from_dir("providers.d", Ok(files)).unwrap();
    assert_eq!(registry.providers().len(), 2);
    assert_eq!(registry.find_provider_for_host("a.VOE.sx").unwrap().0, "voe");
    assert_eq!(registry.all_domain_patterns().len(), 2);
    assert!(registry.get_by_id("off").is_none());
    assert_eq!(provider_id("voe.toml"), Some("voe".into()));
    assert_eq!(provider_id(".toml"), None);
    assert_eq!(provider_id("voe.json"), None);
}

#[test]
fn provider_names_are_unique() {
    let files = || vec![
        file("a", Ok(provider("Same", "a.com"))),
        file("b", Ok(provider("Same", "b.com"))),
    ];
    let err = ProviderRegistry::load_from_dir("providers.d", Ok(files())).err().unwrap();
    assert_eq!(
        err.message(),
        "duplicate provider name 'Same' in providers.d/b.toml and providers.d/a.toml"
    );
    let registry = ProviderRegistry::load_from_dir_or_empty("providers.d", Ok(files()));
    assert!(registry.providers().is_empty());
    let gone = ProviderConfigError::Io { path: "p".into(), source: "gone".into() };
    assert_eq!(gone.message(), "failed to read provider config p: gone");
    assert!(ProviderRegistry::load_from_dir_or_empty("p", Err(gone)).providers().is_empty());
    let bad = ProviderConfigError::TomlParse { path: "p".into(), source: "eof".into() };
    let err = ProviderRegistry::load_from_dir("p", Ok(vec![file("x", Err(bad))])).err().unwrap();
    assert_eq!(err.message(), "failed to parse provider config p: eof");
}

#[test]
fn provider_validation_names_the_place() {
    let entry = |extraction, steps, url_extraction| DeobfuscationPipelineEntry {
        name: String::new(),
        extraction,
        steps,
        url_extraction,
        check_bait: true,
    };
    let bad = || "[bad".to_string();
    let message = |pipeline, transforms| {
        let mut config = provider("P", "p.com");
        config.deobfuscation_pipeline = pipeline;
        config.url_transforms = transforms;
        config.validate("p.toml").err().map(|e| e.message())
    };
    let script = || ContentExtraction::ScriptJsonTag;
    assert_eq!(message(vec![], vec![]), None);
    assert_eq!(
        message(vec![entry(script(), vec![], vec![])], vec![]),
        Some("provider config p.toml: deobfuscation pipeline is empty".into())
    );
    assert_eq!(
        message(
            vec![
                entry(script(), vec![Def::Rot13], vec![]),
                entry(script(), vec![Def::Rot13, Def::RegexExtract { pattern: bad() }], vec![])
            ],
            vec![]
        ),
        Some("provider config p.toml: invalid regex in pipeline[1].steps[1]: [bad".into())
    );
    assert_eq!(
        message(
            vec![entry(ContentExtraction::JsVariable { pattern: bad() }, vec![Def::Rot13], vec![])],
            vec![]
        ),
        Some("provider config p.toml: invalid regex in pipeline[0].extraction: [bad".into())
    );
    let inner = Box::new(ContentExtraction::RegexMatch { pattern: bad() });
    assert_eq!(
        message(
            vec![entry(ContentExtraction::JsRedirectThen { inner }, vec![Def::Rot13], vec![])],
            vec![]
        ),
        Some("provider config p.toml: invalid regex in pipeline[0].extraction.redirect: [bad".into())
    );
    assert_eq!(
        message(
            vec![entry(
                script(),
                vec![Def::Rot13],
                vec![UrlExtractionRule::RegexUrl { pattern: bad(), priority: 0 }]
            )],
            vec![]
        ),
        Some("provider config p.toml: invalid regex in pipeline[0].url_extraction[0]: [bad".into())
    );
    let transform =
        UrlTransform { pattern: bad(), replacement: String::new(), description: String::new() };
    assert_eq!(
        message(vec![], vec![transform]),
        Some("provider config p.toml: invalid regex in url_transforms[0]: [bad".into())
    );
}

#[test]
fn environment_overrides() {
    let mut file = AppConfig::default();
    file.server.ws_addr = "1.1.1.1:1".into();
    file.tor.control_port = 7;
    let env = Environment {
        tor_control_port: Some("not a port".into()),
        dlna_port: Some("1234".into()),
        tls_cert: Some("c".into()),
        tls_key: Some("k".into()),
        ..Default::default()
    };
    let config = AppConfig::load(Some(file), &env);
    assert_eq!(config.server.ws_addr, "1.1.1.1:1");
    assert_eq!(config.tor.control_port, 7);
    assert_eq!(config.dlna.port, 1234);
    assert!(config.server.tls_enabled());
    assert!(!AppConfig::default().server.tls_enabled());
}

#[test]
fn configuration_sources() {
    let found = [false, true, true];
    assert!(matches!(
        choose_source(None, false, &found),
        ConfigSource::File(p) if p == "/etc/picast/picast.toml"
    ));
    assert!(matches!(
        choose_source(Some("x.toml"), true, &found),
        ConfigSource::File(p) if p == "x.toml"
    ));
    assert!(matches!(
        choose_source(Some("x.toml"), false, &found),
        ConfigSource::Missing(p) if p == "x.toml"
    ));
    assert_eq!(missing_file_message("x"), "PICAST_CONFIG=\"x\" does not exist");
}

#[test]
fn state_texts_and_errors() {
    let nil = picast::clock::Uuid::nil();
    let seeking = SessionState::Seeking {
        id: nil,
        source_url: "u".into(),
        resolved_url: "r".into(),
        target_ms: 5,
    };
    assert_eq!(seeking.text(), "seeking(00000000-0000-0000-0000-000000000000, 5ms)");
    let error = SessionState::Error { id: None, message: "a\"b".into() };
    assert_eq!(error.text(), "error(\"a\\\"b\")");
    assert!(error.requires_stop());
    let mut s = Session::new();
    s.fail("one".into()).unwrap();
    let err = s.resolve_err("two".into()).err().unwrap();
    assert_eq!(err.message(), "invalid state transition: cannot go from error to error");
    assert_eq!(err.code(), ErrorCode::InvalidTransition);
    let err = s.handle(CastCommand::Pause).err().unwrap();
    assert_eq!(err.message(), "invalid command pause in state error");
    assert_eq!(s.seek_done().err().unwrap().code(), ErrorCode::InvalidState);
    assert_eq!(s.buffer_full().err().unwrap().code(), ErrorCode::InvalidState);
    assert_eq!(s.resolve_ok("x".into()).err().unwrap().code(), ErrorCode::InvalidState);
    let sub = StateMachineError::Subsystem { code: ErrorCode::Playback, message: "m".into() };
    assert_eq!(sub.message(), "subsystem error (PLAYBACK): m");
    assert_eq!(sub.code(), ErrorCode::Playback);
    assert_eq!(StateMachineError::NoActiveSession.code(), ErrorCode::NoActiveSession);
    assert_eq!(SessionState::default().kind(), SessionStateKind::Idle);
}

fn output() -> YtdlpOutput {
    YtdlpOutput {
        webpage_url: None,
        url: Some("https://v".into()),
        requested_formats: None,
        title: Some("T".into()),
        duration_ms: Some(1500),
        thumbnail: None,
        vcodec: Some("avc1".into()),
        acodec: None,
        width: Some(1920),
        height: Some(-1),
        subtitles: vec!["en".into()],
        format: Some("22".into()),
    }
}

#[test]
fn ytdlp_results() {
    let r = ytdlp_outcome("https://page", &output()).unwrap();
    assert_eq!(r.source_url, "https://page");
    assert_eq!(r.mime_type, Some("video/mp4".into()));
    assert_eq!(r.width, Some(1920));
    assert_eq!(r.height, Some(u32::MAX));
    assert_eq!(r.duration, Some(1500));
    assert!(r.used_tor);
    assert_eq!(r.subtitle_tracks, vec!["en"]);
    let mut nothing = output();
    nothing.url = None;
    assert!(ytdlp_outcome("p", &nothing).is_err());
}

#[test]
fn audio_comes_from_a_separate_stream() {
    let format = |url: &str, vcodec: &str, acodec: &str| RequestedFormat {
        url: Some(url.into()),
        vcodec: Some(vcodec.into()),
        acodec: Some(acodec.into()),
        width: None,
        height: None,
    };
    let urls = |formats: Vec<RequestedFormat>| {
        let mut out = output();
        out.url = None;
        out.requested_formats = Some(formats);
        out.resolve_urls().ok()
    };
    assert_eq!(
        urls(vec![format("https://both", "avc1", "mp4a")]),
        Some(("https://both".into(), None))
    );
    assert_eq!(
        urls(vec![format("https://both", "avc1", "mp4a"), format("https://a", "none", "mp4a")]),
        Some(("https://both".into(), None))
    );
    assert_eq!(
        urls(vec![format("https://a", "none", "mp4a"), format("https://v", "avc1", "none")]),
        Some(("https://v".into(), Some("https://a".into())))
    );
    assert_eq!(
        urls(vec![format("https://v", "avc1", "none"), format("https://both", "vp9", "opus")]),
        Some(("https://v".into(), None))
    );
    assert_eq!(urls(vec![format("https://a", "none", "mp4a")]), None);
}

#[test]
fn ytdlp_arguments_and_failures() {
    let args = ytdlp_args("https://page", "127.0.0.1:9050", "picast-x", "/tmp/t", true);
    assert_eq!(args[5..7], ["--proxy".to_string(), "socks5h://picast-x@127.0.0.1:9050".into()]);
    assert_eq!(args.len(), 18);
    assert_eq!(args.last().unwrap(), "https://page");
    assert_eq!(ytdlp_args("u", "a", "b", "c", false).len(), 12);
    assert_eq!(
        ytdlp_failure(Some(1), "ERROR: x\r\nmore").message(),
        "no media found at yt-dlp exited with 1: ERROR: x"
    );
    assert_eq!(
        ytdlp_failure(None, "").message(),
        "no media found at yt-dlp exited with -1: unknown error"
    );
    assert_eq!(ytdlp_timed_out().message(), "network error: yt-dlp timed out after 30s");
    assert_eq!(
        ytdlp_not_started(false, "denied").message(),
        "network error: failed to spawn yt-dlp: denied"
    );
    assert!(ytdlp_not_started(true, "").message().starts_with("Tor proxy unavailable: yt-dlp binary not found"));
}

#[test]
fn fresh_identifiers_differ() {
    assert_ne!(picast::clock::Uuid::new_v4(), picast::clock::Uuid::new_v4());
    let fresh = picast::clock::Uuid::new_v4();
    assert_eq!(fresh.bits >> 76 & 0xf, 4);
    assert_eq!(fresh.bits >> 62 & 0x3, 2);
    assert_eq!(fresh.text().as_bytes()[14], b'4');
    assert_eq!(picast::clock::Uuid::nil().text(), "00000000-0000-0000-0000-000000000000");
    assert_eq!(
        picast::clock::Uuid { bits: 0x0123_4567_89ab_cdef_fedc_ba98_7654_3210 }.text(),
        "01234567-89ab-cdef-fedc-ba9876543210"
    );
    assert_ne!(Session::new().updated_at().secs, 0);
}
