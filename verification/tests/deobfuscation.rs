use picast::deobfuscation::DeobfuscationStep;
use picast::deobfuscation::{
    append_rq, build_pipeline, extract_content, extract_url_from_deobfuscated, Base64DecodeStep,
    CharShiftStep, CleanBase64Step, DeobfuscationPipeline, JsonParseStep, RegexExtractStep,
    ReverseStep, Rot13Step, Step, StripMarkersStep, StripUnderscoresStep,
};
use picast::provider::{ContentExtraction, UrlExtractionRule};
use picast::provider::DeobfuscationStep as StepDef;

#[test]
fn rot13_step() {
    let step = Rot13Step;
    assert_eq!(step.apply("Hello"), Some("Uryyb".into()));
    assert_eq!(step.apply("Uryyb"), Some("Hello".into()));
    assert_eq!(step.apply("abc123"), Some("nop123".into()));
    assert_eq!(step.name(), "rot13");
}

#[test]
fn strip_markers_step() {
    let step = StripMarkersStep {
        patterns: vec![
            "@$".into(),
            "^^".into(),
            "~@".into(),
            "%?".into(),
            "*~".into(),
            "!!".into(),
            "#&".into(),
        ],
    };
    let result = step.apply("DROH#&nJjm^^AJIg%?BSMq~@AGkj").unwrap();
    assert!(!result.contains("#&"));
    assert!(!result.contains("^^"));
    assert!(!result.contains("%?"));
    assert!(!result.contains("~@"));
}

#[test]
fn base64_decode_step() {
    let step = Base64DecodeStep;
    assert_eq!(step.apply("SGVsbG8="), Some("Hello".into()));
    assert_eq!(step.apply("SGVsbG8"), Some("Hello".into()));
    assert!(step.apply("!!!invalid!!!").is_none());
}

#[test]
fn char_shift_step() {
    let step = CharShiftStep { amount: 3 };
    assert_eq!(step.apply("def"), Some("abc".into()));
    // 'A'(65) - 3 = 62 = '>'
    assert_eq!(step.apply("ABC"), Some(">?@".into()));
}

#[test]
fn reverse_step() {
    let step = ReverseStep;
    assert_eq!(step.apply("abc"), Some("cba".into()));
    assert_eq!(step.apply(""), Some("".into()));
}

#[test]
fn json_parse_step() {
    let step = JsonParseStep { key: "url".into() };
    let input = r#"{"url": "https://cdn.example.com/video.mp4"}"#;
    assert_eq!(
        step.apply(input),
        Some("https://cdn.example.com/video.mp4".into())
    );
}

#[test]
fn json_parse_step_nested() {
    let step = JsonParseStep {
        key: "data.url".into(),
    };
    let input = r#"{"data": {"url": "https://cdn.example.com/video.mp4"}}"#;
    assert_eq!(
        step.apply(input),
        Some("https://cdn.example.com/video.mp4".into())
    );
}

#[test]
fn json_parse_step_missing_key() {
    let step = JsonParseStep {
        key: "missing".into(),
    };
    let input = r#"{"url": "https://cdn.example.com/video.mp4"}"#;
    assert!(step.apply(input).is_none());
}

#[test]
fn regex_extract_step() {
    let step = RegexExtractStep {
        pattern: r#"MKGMa="(.*?)""#.into(),
    };
    let input = r#"MKGMa="abc123""#;
    assert_eq!(step.apply(input), Some("abc123".into()));
}

#[test]
fn clean_base64_step() {
    let step = CleanBase64Step;
    let input = r#"SGVsbG8"#;
    let result = step.apply(input);
    assert!(result.is_some());
}

#[test]
fn strip_underscores_step() {
    let step = StripUnderscoresStep;
    assert_eq!(step.apply("a_b_c"), Some("abc".into()));
    assert_eq!(
        step.apply("no_underscores_here"),
        Some("nounderscoreshere".into())
    );
}

#[test]
fn pipeline_chains_steps() {
    let mut pipeline = DeobfuscationPipeline::new();
    pipeline.add_step(Step::Reverse(ReverseStep));
    pipeline.add_step(Step::CharShift(CharShiftStep { amount: 1 }));

    // "bcd" → reverse → "dcb" → shift(1) → "cba"
    assert_eq!(pipeline.run("bcd"), Some("cba".into()));
}

#[test]
fn pipeline_fails_on_step_failure() {
    let mut pipeline = DeobfuscationPipeline::new();
    pipeline.add_step(Step::Reverse(ReverseStep));
    pipeline.add_step(Step::Base64Decode(Base64DecodeStep));

    let result = pipeline.run("not base64 at all!!!");
    assert!(result.is_none());
}

#[test]
fn build_pipeline_from_config() {
    let steps = vec![
        StepDef::Rot13,
        StepDef::StripMarkers {
            patterns: vec!["@$".into(), "^^".into()],
        },
        StepDef::Base64Decode,
        StepDef::CharShift { amount: 3 },
        StepDef::Reverse,
        StepDef::Base64Decode,
    ];

    let pipeline = build_pipeline(&steps);
    assert_eq!(pipeline.len(), 6);
}

#[test]
fn extract_content_script_json_tag() {
    let html = r#"<html><script type="application/json">["obfuscated_data"]</script></html>"#;
    let result = extract_content(html, &ContentExtraction::ScriptJsonTag);
    assert_eq!(result, Some(r#"["obfuscated_data"]"#.to_string()));
}

#[test]
fn extract_content_js_variable() {
    let html = r#"<script>MKGMa="abc123"</script>"#;
    let result = extract_content(
        html,
        &ContentExtraction::JsVariable {
            pattern: r#"MKGMa="(.*?)""#.into(),
        },
    );
    assert_eq!(result, Some("abc123".into()));
}

#[test]
fn extract_content_regex_match() {
    let html = r#"a168c = 'base64data'"#;
    let result = extract_content(
        html,
        &ContentExtraction::RegexMatch {
            pattern: r#"a168c\s*=\s*'([^']+)'"#.into(),
        },
    );
    assert_eq!(result, Some("base64data".into()));
}

#[test]
fn extract_url_from_deobfuscated_with_json_key() {
    let json = r#"{"mp4": "https://cdn.example.com/video.mp4", "source": "https://cdn.example.com/stream.m3u8"}"#;
    let rules = vec![
        UrlExtractionRule::JsonKey {
            key: "mp4".into(),
            priority: 1,
            append_rq_token: false,
            prefer_mp4: true,
        },
        UrlExtractionRule::JsonKey {
            key: "source".into(),
            priority: 2,
            append_rq_token: false,
            prefer_mp4: true,
        },
    ];
    let result = extract_url_from_deobfuscated(json, &rules, &[], &[]);
    assert!(result.is_some());
    assert_eq!(result.unwrap().url, "https://cdn.example.com/video.mp4");
}

#[test]
fn extract_url_with_rq_token() {
    let json = r#"{"mp4": "https://cdn.example.com/video.mp4", "request": "TOKEN123"}"#;
    let rules = vec![UrlExtractionRule::JsonKey {
        key: "mp4".into(),
        priority: 1,
        append_rq_token: true,
        prefer_mp4: true,
    }];
    let result = extract_url_from_deobfuscated(json, &rules, &[], &[]);
    assert!(result.is_some());
    let extracted = result.unwrap();
    assert_eq!(
        extracted.url,
        "https://cdn.example.com/video.mp4?rq=TOKEN123"
    );
    assert_eq!(extracted.request_token, Some("TOKEN123".into()));
}

#[test]
fn extract_url_skips_bait() {
    let json = r#"{"mp4": "https://test-videos.co.uk/Big_Buck_Bunny_1080_10s_5MB.mp4"}"#;
    let rules = vec![UrlExtractionRule::JsonKey {
        key: "mp4".into(),
        priority: 1,
        append_rq_token: false,
        prefer_mp4: true,
    }];
    let bait_domains = vec!["test-videos.co.uk".into()];
    let bait_filenames = vec!["BigBuckBunny".into()];
    let result = extract_url_from_deobfuscated(json, &rules, &bait_domains, &bait_filenames);
    assert!(result.is_none());
}

#[test]
fn append_rq_helper() {
    assert_eq!(
        append_rq("https://cdn.example.com/video.mp4?t=abc", "TOKEN123"),
        "https://cdn.example.com/video.mp4?t=abc&rq=TOKEN123"
    );
    assert_eq!(
        append_rq(
            "https://cdn.example.com/video.mp4?t=abc&rq=EXISTING",
            "TOKEN123"
        ),
        "https://cdn.example.com/video.mp4?t=abc&rq=EXISTING"
    );
    assert_eq!(
        append_rq("https://cdn.example.com/video.mp4", "TOKEN123"),
        "https://cdn.example.com/video.mp4?rq=TOKEN123"
    );
    assert_eq!(
        append_rq("https://cdn.example.com/video.mp4", ""),
        "https://cdn.example.com/video.mp4"
    );
}
