use picast::provider::{
    CdnConfig, DomainMatchKind, DomainPattern, ProviderConfig, ProviderConfigError,
    ProviderRegistry, ResolverType,
};

#[test]
fn domain_pattern_exact_match() {
    let dp = DomainPattern { pattern: "voe.sx".into(), kind: DomainMatchKind::Exact };
    assert!(dp.matches("voe.sx"));
    assert!(dp.matches("VOE.SX"));
    assert!(!dp.matches("sub.voe.sx"));
    assert!(!dp.matches("notvoe.sx"));
}

#[test]
fn domain_pattern_suffix_match() {
    let dp = DomainPattern { pattern: "voe.sx".into(), kind: DomainMatchKind::Suffix };
    assert!(dp.matches("voe.sx"));
    assert!(dp.matches("sub.voe.sx"));
    assert!(dp.matches("VOE.SX"));
    assert!(!dp.matches("notvoe.sx"));
}

#[test]
fn domain_pattern_regex_match() {
    let dp = DomainPattern { pattern: r"^voe\d*\.com$".into(), kind: DomainMatchKind::Regex };
    assert!(dp.matches("voe.com"));
    assert!(dp.matches("voe123.com"));
    assert!(!dp.matches("voe.org"));
}

#[test]
fn provider_config_validate_missing_name() {
    let config = ProviderConfig {
        name: String::new(),
        domain_patterns: vec![DomainPattern {
            pattern: "test.com".into(),
            kind: DomainMatchKind::Exact,
        }],
        ..Default::default()
    };
    let err = config.validate("test.toml");
    assert!(err.is_err());
    match err.unwrap_err() {
        ProviderConfigError::MissingField { field, .. } => assert_eq!(field, "name"),
        other => panic!("Expected MissingField, got {:?}", other),
    }
}

#[test]
fn provider_config_validate_missing_domains() {
    let config =
        ProviderConfig { name: "Test".into(), domain_patterns: vec![], ..Default::default() };
    let err = config.validate("test.toml");
    assert!(err.is_err());
    match err.unwrap_err() {
        ProviderConfigError::MissingField { field, .. } => assert_eq!(field, "domain_patterns"),
        other => panic!("Expected MissingField, got {:?}", other),
    }
}

#[test]
fn provider_config_validate_invalid_regex() {
    let config = ProviderConfig {
        name: "Test".into(),
        domain_patterns: vec![DomainPattern {
            pattern: "[invalid".into(),
            kind: DomainMatchKind::Regex,
        }],
        ..Default::default()
    };
    let err = config.validate("test.toml");
    assert!(err.is_err());
    match err.unwrap_err() {
        ProviderConfigError::InvalidRegex { .. } => {},
        other => panic!("Expected InvalidRegex, got {:?}", other),
    }
}

#[test]
fn provider_registry_find_provider() {
    let mut registry = ProviderRegistry::new();
    let config = ProviderConfig {
        name: "Voe".into(),
        domain_patterns: vec![DomainPattern {
            pattern: "voe.sx".into(),
            kind: DomainMatchKind::Suffix,
        }],
        ..default_provider_config()
    };
    registry.add("voe".into(), config);

    assert!(registry.find_provider_for_host("voe.sx").is_some());
    assert!(registry.find_provider_for_host("sub.voe.sx").is_some());
    assert!(registry.find_provider_for_host("youtube.com").is_none());
}

#[test]
fn provider_registry_get_by_id() {
    let mut registry = ProviderRegistry::new();
    let config = ProviderConfig {
        name: "Voe".into(),
        domain_patterns: vec![DomainPattern {
            pattern: "voe.sx".into(),
            kind: DomainMatchKind::Suffix,
        }],
        ..default_provider_config()
    };
    registry.add("voe".into(), config);

    assert!(registry.get_by_id("voe").is_some());
    assert!(registry.get_by_id("doodstream").is_none());
}

/// Helper to create a minimal valid ProviderConfig for tests.
fn default_provider_config() -> ProviderConfig {
    ProviderConfig {
        name: String::new(),
        enabled: true,
        domain_patterns: vec![],
        resolver_type: ResolverType::Custom,
        deobfuscation_pipeline: vec![],
        url_extraction: vec![],
        quality_preferences: vec![],
        cdn: CdnConfig::default(),
        forward_cookies: false,
        request_headers: vec![],
        timeout_secs: 15,
        bait_domains: vec![],
        bait_filenames: vec![],
        content_extraction: vec![],
        post_resolve: vec![],
        url_transforms: vec![],
    }
}
