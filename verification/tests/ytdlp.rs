use picast::classifier::UrlCategory;
use picast::json::{parse_json, Json};
use picast::resolver::ResolveError;
use picast::ytdlp::{
    determine_category, determine_mime_type, RequestedFormat, YtdlpOutput, DEFAULT_SUB_LANGS,
    H264_FORMAT_STRING, SUB_FORMAT, YTDLP_TIMEOUT_SECS,
};

/// Reads the fields of a yt-dlp document that choosing a URL depends on.
fn output(text: &str) -> YtdlpOutput {
    let document = parse_json(text).expect("valid JSON");
    let requested_formats = match document.get("requested_formats") {
        Some(Json::List(items)) => Some(
            items
                .iter()
                .map(|f| RequestedFormat {
                    url: f.get_text("url"),
                    vcodec: f.get_text("vcodec"),
                    acodec: f.get_text("acodec"),
                    width: f.get_number("width").map(|n| n as i64),
                    height: f.get_number("height").map(|n| n as i64),
                })
                .collect(),
        ),
        _ => None,
    };
    YtdlpOutput {
        webpage_url: document.get_text("webpage_url"),
        url: document.get_text("url"),
        requested_formats,
        title: document.get_text("title"),
        duration_ms: None,
        thumbnail: document.get_text("thumbnail"),
        vcodec: document.get_text("vcodec"),
        acodec: document.get_text("acodec"),
        width: None,
        height: None,
        subtitles: vec![],
        format: document.get_text("format"),
    }
}

#[test]
fn h264_format_string_is_valid() {
    // Ensure the format string compiles and looks right.
    assert!(H264_FORMAT_STRING.contains("avc1"));
    assert!(H264_FORMAT_STRING.contains("height<=1080"));
}

#[test]
fn determine_category_hls() {
    let ytdlp = YtdlpOutput {
        webpage_url: None,
        url: Some("https://example.com/stream".into()),
        requested_formats: None,
        title: None,
        duration_ms: None,
        thumbnail: None,
        vcodec: Some("avc1".into()),
        acodec: Some("mp4a".into()),
        width: None,
        height: None,
        subtitles: Default::default(),
        format: Some("hls-1234".into()),
    };
    assert_eq!(determine_category(&ytdlp), UrlCategory::HlsManifest);
}

#[test]
fn determine_category_dash() {
    let ytdlp = YtdlpOutput {
        webpage_url: None,
        url: Some("https://example.com/stream".into()),
        requested_formats: None,
        title: None,
        duration_ms: None,
        thumbnail: None,
        vcodec: Some("avc1".into()),
        acodec: Some("mp4a".into()),
        width: None,
        height: None,
        subtitles: Default::default(),
        format: Some("dash-5678".into()),
    };
    assert_eq!(determine_category(&ytdlp), UrlCategory::DashManifest);
}

#[test]
fn determine_category_direct() {
    let ytdlp = YtdlpOutput {
        webpage_url: None,
        url: Some("https://example.com/video.mp4".into()),
        requested_formats: None,
        title: None,
        duration_ms: None,
        thumbnail: None,
        vcodec: Some("avc1".into()),
        acodec: Some("mp4a".into()),
        width: None,
        height: None,
        subtitles: Default::default(),
        format: Some("137+251".into()),
    };
    assert_eq!(determine_category(&ytdlp), UrlCategory::DirectMedia);
}

#[test]
fn determine_mime_type_h264_video() {
    let mime = determine_mime_type(
        &UrlCategory::WebPage,
        &Some("avc1".into()),
        &Some("mp4a".into()),
        &None,
    );
    assert_eq!(mime, Some("video/mp4".into()));
}

#[test]
fn determine_mime_type_vp9_video() {
    let mime = determine_mime_type(
        &UrlCategory::WebPage,
        &Some("vp9".into()),
        &Some("opus".into()),
        &None,
    );
    assert_eq!(mime, Some("video/webm".into()));
}

#[test]
fn determine_mime_type_vp09_video() {
    let mime = determine_mime_type(
        &UrlCategory::Onion,
        &Some("vp09.00.10.08".into()),
        &Some("opus".into()),
        &None,
    );
    assert_eq!(mime, Some("video/webm".into()));
}

#[test]
fn determine_mime_type_av1_video() {
    let mime = determine_mime_type(
        &UrlCategory::WebPage,
        &Some("av1".into()),
        &Some("opus".into()),
        &None,
    );
    assert_eq!(mime, Some("video/webm".into()));
}

#[test]
fn determine_mime_type_webm_container() {
    let mime = determine_mime_type(
        &UrlCategory::WebPage,
        &Some("avc1".into()),
        &Some("mp4a".into()),
        &Some("webm-1234".into()),
    );
    assert_eq!(mime, Some("video/webm".into()));
}

#[test]
fn determine_mime_type_audio_only_mp4a() {
    let mime = determine_mime_type(
        &UrlCategory::WebPage,
        &Some("none".into()),
        &Some("mp4a".into()),
        &None,
    );
    assert_eq!(mime, Some("audio/mp4".into()));
}

#[test]
fn determine_mime_type_audio_only_opus() {
    let mime = determine_mime_type(
        &UrlCategory::WebPage,
        &Some("none".into()),
        &Some("opus".into()),
        &None,
    );
    assert_eq!(mime, Some("audio/ogg".into()));
}

#[test]
fn determine_mime_type_audio_opus_webm_container() {
    let mime = determine_mime_type(
        &UrlCategory::Onion,
        &Some("none".into()),
        &Some("opus".into()),
        &Some("webm".into()),
    );
    assert_eq!(mime, Some("audio/ogg".into()));
}

#[test]
fn determine_mime_type_no_codecs() {
    let mime = determine_mime_type(
        &UrlCategory::WebPage,
        &Some("none".into()),
        &Some("none".into()),
        &None,
    );
    assert_eq!(mime, None);
}

#[test]
fn determine_mime_type_magnet() {
    let mime = determine_mime_type(&UrlCategory::Magnet, &None, &None, &None);
    assert_eq!(mime, Some("application/x-magnet".into()));
}

#[test]
fn determine_mime_type_direct_media_vp9() {
    let mime = determine_mime_type(
        &UrlCategory::DirectMedia,
        &Some("vp9".into()),
        &Some("opus".into()),
        &None,
    );
    assert_eq!(mime, Some("video/webm".into()));
}

#[test]
fn determine_mime_type_hls_h264() {
    let mime = determine_mime_type(
        &UrlCategory::HlsManifest,
        &Some("avc1".into()),
        &Some("mp4a".into()),
        &None,
    );
    assert_eq!(mime, Some("video/mp4".into()));
}

#[test]
fn determine_mime_type_dash_vp9() {
    let mime = determine_mime_type(
        &UrlCategory::DashManifest,
        &Some("vp9".into()),
        &Some("opus".into()),
        &None,
    );
    assert_eq!(mime, Some("video/webm".into()));
}

#[test]
fn determine_mime_type_audio_webm_container() {
    // Audio-only with webm container should be audio/ogg
    let mime = determine_mime_type(
        &UrlCategory::WebPage,
        &Some("none".into()),
        &Some("mp4a".into()),
        &Some("webm".into()),
    );
    assert_eq!(mime, Some("audio/ogg".into()));
}

#[test]
fn determine_mime_type_none_vcodec_none_acodec() {
    let mime = determine_mime_type(&UrlCategory::WebPage, &None, &None, &None);
    assert_eq!(mime, None);
}

#[test]
fn determine_mime_type_video_only_no_audio() {
    // Video codec present, no audio codec at all.
    let mime = determine_mime_type(
        &UrlCategory::WebPage,
        &Some("avc1".into()),
        &None,
        &None,
    );
    assert_eq!(mime, Some("video/mp4".into()));
}

#[test]
fn determine_mime_type_audio_only_no_video() {
    // No video codec at all, audio codec present.
    let mime = determine_mime_type(
        &UrlCategory::WebPage,
        &None,
        &Some("opus".into()),
        &None,
    );
    assert_eq!(mime, Some("audio/ogg".into()));
}

#[test]
fn subtitle_tracks_empty_when_no_subs() {
    let ytdlp = YtdlpOutput {
        webpage_url: None,
        url: None,
        requested_formats: None,
        title: None,
        duration_ms: None,
        thumbnail: None,
        vcodec: Some("avc1".into()),
        acodec: Some("mp4a".into()),
        width: None,
        height: None,
        subtitles: Default::default(),
        format: None,
    };
    assert!(ytdlp.subtitles.is_empty());
}

#[test]
fn default_sub_langs_constant() {
    assert!(DEFAULT_SUB_LANGS.contains("en"));
    assert!(DEFAULT_SUB_LANGS.contains("es"));
    assert!(DEFAULT_SUB_LANGS.contains("fr"));
    assert!(DEFAULT_SUB_LANGS.contains("de"));
}

#[test]
fn sub_format_is_vtt() {
    assert_eq!(SUB_FORMAT, "vtt");
}

#[test]
fn determine_category_no_format() {
    let ytdlp = YtdlpOutput {
        webpage_url: None,
        url: Some("https://example.com/video.mp4".into()),
        requested_formats: None,
        title: None,
        duration_ms: None,
        thumbnail: None,
        vcodec: Some("avc1".into()),
        acodec: Some("mp4a".into()),
        width: None,
        height: None,
        subtitles: Default::default(),
        format: None,
    };
    assert_eq!(determine_category(&ytdlp), UrlCategory::DirectMedia);
}

#[test]
fn determine_category_hls_priority_over_dash() {
    // If the format string contains both "hls" and "dash",
    // HLS should be returned since it's checked first.
    let ytdlp = YtdlpOutput {
        webpage_url: None,
        url: Some("https://example.com/stream".into()),
        requested_formats: None,
        title: None,
        duration_ms: None,
        thumbnail: None,
        vcodec: Some("avc1".into()),
        acodec: Some("mp4a".into()),
        width: None,
        height: None,
        subtitles: Default::default(),
        format: Some("hls-dash-1234".into()),
    };
    assert_eq!(determine_category(&ytdlp), UrlCategory::HlsManifest);
}

#[test]
fn determine_category_case_sensitive_format() {
    // The format check is case-sensitive: "HLS" should NOT match.
    let ytdlp = YtdlpOutput {
        webpage_url: None,
        url: Some("https://example.com/stream".into()),
        requested_formats: None,
        title: None,
        duration_ms: None,
        thumbnail: None,
        vcodec: Some("avc1".into()),
        acodec: Some("mp4a".into()),
        width: None,
        height: None,
        subtitles: Default::default(),
        format: Some("HLS-1234".into()),
    };
    // "HLS" doesn't match "hls" since contains() is case-sensitive.
    assert_eq!(determine_category(&ytdlp), UrlCategory::DirectMedia);
}

#[test]
fn determine_category_dash_case_sensitive() {
    // "DASH" should NOT match since contains() is case-sensitive.
    let ytdlp = YtdlpOutput {
        webpage_url: None,
        url: Some("https://example.com/stream".into()),
        requested_formats: None,
        title: None,
        duration_ms: None,
        thumbnail: None,
        vcodec: Some("avc1".into()),
        acodec: Some("mp4a".into()),
        width: None,
        height: None,
        subtitles: Default::default(),
        format: Some("DASH-5678".into()),
    };
    assert_eq!(determine_category(&ytdlp), UrlCategory::DirectMedia);
}

#[test]
fn duration_negative_treated_as_none() {
    // Live streams return -1.0 duration; it should map to None.
    let duration: Option<f64> = Some(-1.0);
    let result = duration.and_then(|d| {
        if d < 0.0 || d.is_nan() || d.is_infinite() {
            None
        } else {
            Some((d * 1000.0) as u64)
        }
    });
    assert_eq!(result, None);
}

#[test]
fn duration_nan_treated_as_none() {
    let duration: Option<f64> = Some(f64::NAN);
    let result = duration.and_then(|d| {
        if d < 0.0 || d.is_nan() || d.is_infinite() {
            None
        } else {
            Some((d * 1000.0) as u64)
        }
    });
    assert_eq!(result, None);
}

#[test]
fn duration_infinite_treated_as_none() {
    let duration: Option<f64> = Some(f64::INFINITY);
    let result = duration.and_then(|d| {
        if d < 0.0 || d.is_nan() || d.is_infinite() {
            None
        } else {
            Some((d * 1000.0) as u64)
        }
    });
    assert_eq!(result, None);
}

#[test]
fn duration_positive_converted_to_ms() {
    let duration: Option<f64> = Some(120.5);
    let result = duration.and_then(|d| {
        if d < 0.0 || d.is_nan() || d.is_infinite() {
            None
        } else {
            Some((d * 1000.0) as u64)
        }
    });
    assert_eq!(result, Some(120500));
}

#[test]
fn duration_zero_converted_to_zero_ms() {
    let duration: Option<f64> = Some(0.0);
    let result = duration.and_then(|d| {
        if d < 0.0 || d.is_nan() || d.is_infinite() {
            None
        } else {
            Some((d * 1000.0) as u64)
        }
    });
    assert_eq!(result, Some(0));
}

#[test]
fn ytdlp_output_deserialize_missing_url_no_requested_formats_fails() {
    // The `url` field is now optional, but if neither `url` nor
    // `requested_formats` provides a playable URL, `resolve_urls()`
    // should fail.
    let json = r#"{"title": "No URL"}"#;
    let ytdlp = output(json);
    assert!(ytdlp.url.is_none());
    assert!(ytdlp.requested_formats.is_none());
    let result = ytdlp.resolve_urls();
    assert!(result.is_err(), "resolve_urls should fail with no URL available");
}

#[test]
fn ytdlp_timeout_constant() {
    assert_eq!(YTDLP_TIMEOUT_SECS, 30, "default yt-dlp timeout should be 30 seconds");
}

#[test]
fn h264_format_string_components() {
    // Verify the format string has the expected components.
    assert!(H264_FORMAT_STRING.contains("bestvideo"));
    assert!(H264_FORMAT_STRING.contains("bestaudio"));
    assert!(H264_FORMAT_STRING.contains("avc1"));
    assert!(H264_FORMAT_STRING.contains("height<=1080"));
    assert!(H264_FORMAT_STRING.contains("best[height<=1080]"));
}

#[test]
fn determine_category_format_with_hls_substring() {
    // Any format string containing "hls" should match.
    let ytdlp = YtdlpOutput {
        webpage_url: None,
        url: Some("https://example.com/stream".into()),
        requested_formats: None,
        title: None,
        duration_ms: None,
        thumbnail: None,
        vcodec: None,
        acodec: None,
        width: None,
        height: None,
        subtitles: Default::default(),
        format: Some("hls-4320".into()),
    };
    assert_eq!(determine_category(&ytdlp), UrlCategory::HlsManifest);
}

#[test]
fn determine_category_format_with_dash_substring() {
    let ytdlp = YtdlpOutput {
        webpage_url: None,
        url: Some("https://example.com/stream".into()),
        requested_formats: None,
        title: None,
        duration_ms: None,
        thumbnail: None,
        vcodec: None,
        acodec: None,
        width: None,
        height: None,
        subtitles: Default::default(),
        format: Some("dash-9876".into()),
    };
    assert_eq!(determine_category(&ytdlp), UrlCategory::DashManifest);
}

#[test]
fn resolve_urls_top_level_url_preferred() {
    // When top-level `url` is present, it should be used directly.
    let json = r#"{
        "url": "https://example.com/merged.mp4",
        "title": "Pre-merged"
    }"#;
    let ytdlp = output(json);
    let (video_url, audio_url) = ytdlp.resolve_urls().unwrap();
    assert_eq!(video_url, "https://example.com/merged.mp4");
    assert_eq!(audio_url, None);
}

#[test]
fn resolve_urls_from_requested_formats_video_plus_audio() {
    // When top-level `url` is missing but `requested_formats` has
    // separate video and audio entries, we should extract both URLs.
    let json = r#"{
        "title": "Separate Streams",
        "requested_formats": [
            {
                "url": "https://cdn.example.com/video_only.mp4",
                "vcodec": "avc1.64001F",
                "acodec": "none",
                "width": 1920,
                "height": 1080
            },
            {
                "url": "https://cdn.example.com/audio_only.mp4",
                "vcodec": "none",
                "acodec": "mp4a.40.2"
            }
        ]
    }"#;
    let ytdlp = output(json);
    assert!(ytdlp.url.is_none());
    let (video_url, audio_url) = ytdlp.resolve_urls().unwrap();
    assert_eq!(video_url, "https://cdn.example.com/video_only.mp4");
    assert_eq!(audio_url, Some("https://cdn.example.com/audio_only.mp4".into()));
}

#[test]
fn resolve_urls_from_requested_formats_video_only() {
    // When `requested_formats` only has a video entry.
    let json = r#"{
        "requested_formats": [
            {
                "url": "https://cdn.example.com/video.mp4",
                "vcodec": "avc1",
                "acodec": "none"
            }
        ]
    }"#;
    let ytdlp = output(json);
    let (video_url, audio_url) = ytdlp.resolve_urls().unwrap();
    assert_eq!(video_url, "https://cdn.example.com/video.mp4");
    assert_eq!(audio_url, None);
}

#[test]
fn resolve_urls_empty_top_level_url_falls_back_to_requested_formats() {
    // When top-level `url` is an empty string, fall back to requested_formats.
    let json = r#"{
        "url": "",
        "requested_formats": [
            {
                "url": "https://cdn.example.com/video.mp4",
                "vcodec": "avc1",
                "acodec": "none"
            },
            {
                "url": "https://cdn.example.com/audio.mp4",
                "vcodec": "none",
                "acodec": "opus"
            }
        ]
    }"#;
    let ytdlp = output(json);
    let (video_url, audio_url) = ytdlp.resolve_urls().unwrap();
    assert_eq!(video_url, "https://cdn.example.com/video.mp4");
    assert_eq!(audio_url, Some("https://cdn.example.com/audio.mp4".into()));
}

#[test]
fn resolve_urls_no_url_at_all_errors() {
    // Neither top-level `url` nor `requested_formats` — should error.
    let json = r#"{"title": "Nothing"}"#;
    let ytdlp = output(json);
    let result = ytdlp.resolve_urls();
    assert!(result.is_err());
    match result.unwrap_err() {
        ResolveError::NoMediaFound(msg) => {
            assert!(msg.contains("no playable URL"));
        },
        other => panic!("expected NoMediaFound, got {:?}", other),
    }
}

#[test]
fn resolve_urls_requested_formats_with_empty_urls_skipped() {
    // `requested_formats` entries with empty URLs should be skipped.
    let json = r#"{
        "requested_formats": [
            {
                "url": "",
                "vcodec": "avc1",
                "acodec": "none"
            }
        ]
    }"#;
    let ytdlp = output(json);
    let result = ytdlp.resolve_urls();
    assert!(result.is_err());
}

#[test]
fn format_string_prefers_pre_merged() {
    // The format string should prefer pre-merged formats first,
    // falling back to separate video+audio only as last resort.
    assert!(H264_FORMAT_STRING.starts_with("best[vcodec^=avc1]"));
    assert!(H264_FORMAT_STRING.contains("best[height<=1080]"));
    // The + format (bestvideo+bestaudio) should be the LAST option.
    let parts: Vec<&str> = H264_FORMAT_STRING.split('/').collect();
    assert_eq!(parts.last().unwrap(), &"bestvideo[vcodec^=avc1][height<=1080]+bestaudio");
}
