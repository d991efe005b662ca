//! Hosting providers: the configuration that describes one, its validation,
//! and the registry that finds the provider responsible for a host.

use crate::patterns::{pattern_compiles, pattern_matches, regex_matches, regex_valid};
use crate::text::{
    chars_of, decimal_text, ends_with, host_in_domain, in_domain, join3, lower, number_text, owned,
    push_text, same_text, str_ends_with, substring, texts, to_lowercase,
};
use vstd::prelude::*;

verus! {

// ---------------------------------------------------------------------------
// Errors
// ---------------------------------------------------------------------------

/// Errors during provider configuration loading or validation.
#[derive(Debug)]
pub enum ProviderConfigError {
    /// The file could not be read.
    Io { path: String, source: String },
    /// The content could not be parsed.
    TomlParse { path: String, source: String },
    /// A required field is missing.
    MissingField { path: String, field: String },
    /// A regex pattern is invalid.
    InvalidRegex { path: String, context: String, pattern: String },
    /// A deobfuscation step has invalid parameters.
    InvalidStep { path: String, step: String, reason: String },
    /// Duplicate provider name found.
    DuplicateName { name: String, path1: String, path2: String },
    /// The deobfuscation pipeline is empty.
    EmptyPipeline { path: String },
}

/// Mathematical counterpart of [`ProviderConfigError`].
pub enum ConfigFault {
    Io { path: Seq<char>, source: Seq<char> },
    TomlParse { path: Seq<char>, source: Seq<char> },
    MissingField { path: Seq<char>, field: Seq<char> },
    InvalidRegex { path: Seq<char>, context: Seq<char>, pattern: Seq<char> },
    InvalidStep { path: Seq<char>, step: Seq<char>, reason: Seq<char> },
    DuplicateName { name: Seq<char>, path1: Seq<char>, path2: Seq<char> },
    EmptyPipeline { path: Seq<char> },
}

impl View for ProviderConfigError {
    type V = ConfigFault;

    open spec fn view(&self) -> ConfigFault {
        match self {
            ProviderConfigError::Io { path, source } => ConfigFault::Io {
                path: path@,
                source: source@,
            },
            ProviderConfigError::TomlParse { path, source } => ConfigFault::TomlParse {
                path: path@,
                source: source@,
            },
            ProviderConfigError::MissingField { path, field } => ConfigFault::MissingField {
                path: path@,
                field: field@,
            },
            ProviderConfigError::InvalidRegex { path, context, pattern } =>
            ConfigFault::InvalidRegex { path: path@, context: context@, pattern: pattern@ },
            ProviderConfigError::InvalidStep { path, step, reason } => ConfigFault::InvalidStep {
                path: path@,
                step: step@,
                reason: reason@,
            },
            ProviderConfigError::DuplicateName { name, path1, path2 } =>
            ConfigFault::DuplicateName { name: name@, path1: path1@, path2: path2@ },
            ProviderConfigError::EmptyPipeline { path } => ConfigFault::EmptyPipeline {
                path: path@,
            },
        }
    }
}

/// How an error reads.
pub open spec fn fault_text(fault: ConfigFault) -> Seq<char> {
    match fault {
        ConfigFault::Io { path, source } => "failed to read provider config "@ + path + ": "@
            + source,
        ConfigFault::TomlParse { path, source } => "failed to parse provider config "@ + path
            + ": "@ + source,
        ConfigFault::MissingField { path, field } => "provider config "@ + path
            + ": missing required field '"@ + field + "'"@,
        ConfigFault::InvalidRegex { path, context, pattern } => "provider config "@ + path
            + ": invalid regex in "@ + context + ": "@ + pattern,
        ConfigFault::InvalidStep { path, step, reason } => "provider config "@ + path
            + ": invalid deobfuscation step '"@ + step + "': "@ + reason,
        ConfigFault::DuplicateName { name, path1, path2 } => "duplicate provider name '"@ + name
            + "' in "@ + path1 + " and "@ + path2,
        ConfigFault::EmptyPipeline { path } => "provider config "@ + path
            + ": deobfuscation pipeline is empty"@,
    }
}

impl ProviderConfigError {
    /// How the error reads.
    pub fn message(&self) -> (r: String)
        ensures
            r@ == fault_text(self@),
    {
        match self {
            ProviderConfigError::Io { path, source } => {
                let mut r = join3("failed to read provider config ", path.as_str(), ": ");
                push_text(&mut r, source.as_str());
                r
            },
            ProviderConfigError::TomlParse { path, source } => {
                let mut r = join3("failed to parse provider config ", path.as_str(), ": ");
                push_text(&mut r, source.as_str());
                r
            },
            ProviderConfigError::MissingField { path, field } => {
                let mut r = join3(
                    "provider config ",
                    path.as_str(),
                    ": missing required field '",
                );
                push_text(&mut r, field.as_str());
                push_text(&mut r, "'");
                r
            },
            ProviderConfigError::InvalidRegex { path, context, pattern } => {
                let mut r = join3("provider config ", path.as_str(), ": invalid regex in ");
                push_text(&mut r, context.as_str());
                push_text(&mut r, ": ");
                push_text(&mut r, pattern.as_str());
                r
            },
            ProviderConfigError::InvalidStep { path, step, reason } => {
                let mut r = join3(
                    "provider config ",
                    path.as_str(),
                    ": invalid deobfuscation step '",
                );
                push_text(&mut r, step.as_str());
                push_text(&mut r, "': ");
                push_text(&mut r, reason.as_str());
                r
            },
            ProviderConfigError::DuplicateName { name, path1, path2 } => {
                let mut r = join3("duplicate provider name '", name.as_str(), "' in ");
                push_text(&mut r, path1.as_str());
                push_text(&mut r, " and ");
                push_text(&mut r, path2.as_str());
                r
            },
            ProviderConfigError::EmptyPipeline { path } => join3(
                "provider config ",
                path.as_str(),
                ": deobfuscation pipeline is empty",
            ),
        }
    }
}

// ---------------------------------------------------------------------------
// Domain patterns
// ---------------------------------------------------------------------------

/// How to match a domain against a pattern.
#[derive(Debug, Clone, Copy, PartialEq, Eq, Structural)]
pub enum DomainMatchKind {
    /// Exact string match.
    Exact,
    /// The domain itself or any subdomain.
    Suffix,
    /// The pattern is a regex applied to the hostname.
    Regex,
}

impl Default for DomainMatchKind {
    fn default() -> (r: Self)
        ensures
            r == DomainMatchKind::Suffix,
    {
        DomainMatchKind::Suffix
    }
}

/// A single domain pattern for URL matching.
#[derive(Debug, Clone, PartialEq)]
pub struct DomainPattern {
    /// The pattern string (exact domain, suffix, or regex).
    pub pattern: String,
    /// How to interpret the pattern.
    pub kind: DomainMatchKind,
}

/// Whether a hostname falls under a domain pattern.
pub open spec fn pattern_covers(p: DomainPattern, host: Seq<char>) -> bool {
    match p.kind {
        DomainMatchKind::Exact => lower(host) == lower(p.pattern@),
        DomainMatchKind::Suffix => in_domain(lower(host), lower(p.pattern@)),
        DomainMatchKind::Regex => regex_matches(p.pattern@, host),
    }
}

/// Whether a domain pattern can be used: a regex must compile.
pub open spec fn pattern_usable(p: DomainPattern) -> bool {
    p.kind == DomainMatchKind::Regex ==> regex_valid(p.pattern@)
}

impl DomainPattern {
    /// Check if a hostname matches this pattern.
    pub fn matches(&self, host: &str) -> (r: bool)
        ensures
            r == pattern_covers(*self, host@),
    {
        let host_lower = to_lowercase(host);
        let pattern_lower = to_lowercase(self.pattern.as_str());
        match self.kind {
            DomainMatchKind::Exact => same_text(host_lower.as_str(), pattern_lower.as_str()),
            DomainMatchKind::Suffix => host_in_domain(host_lower.as_str(), pattern_lower.as_str()),
            DomainMatchKind::Regex => pattern_matches(self.pattern.as_str(), host),
        }
    }

    /// Validate that a regex pattern compiles.
    pub fn validate_regex(&self) -> (r: Result<(), ProviderConfigError>)
        ensures
            r is Ok <==> pattern_usable(*self),
            r is Err ==> r->Err_0@ == (ConfigFault::InvalidRegex {
                path: Seq::empty(),
                context: "domain pattern"@,
                pattern: self.pattern@,
            }),
    {
        if self.kind == DomainMatchKind::Regex && !pattern_compiles(self.pattern.as_str()) {
            Err(
                ProviderConfigError::InvalidRegex {
                    path: String::new(),
                    context: owned("domain pattern"),
                    pattern: owned(self.pattern.as_str()),
                },
            )
        } else {
            Ok(())
        }
    }
}

// ---------------------------------------------------------------------------
// Configuration types
// ---------------------------------------------------------------------------

/// A single step in a deobfuscation pipeline.
#[derive(Debug, Clone, PartialEq)]
pub enum DeobfuscationStep {
    /// ROT13 substitution cipher (letters only).
    Rot13,
    /// Remove the given separators.
    StripMarkers { patterns: Vec<String> },
    /// Standard Base64 decode with safe padding.
    Base64Decode,
    /// Shift code points down by `amount`.
    CharShift { amount: u32 },
    /// Reverse the string.
    Reverse,
    /// Parse as JSON and take the value at a dotted key path.
    JsonParse { key: String },
    /// Take the first capture group of a regex.
    RegexExtract { pattern: String },
    /// Strip backslashes and pad Base64.
    CleanBase64,
    /// Strip underscores.
    StripUnderscores,
}

/// Mathematical counterpart of [`DeobfuscationStep`].
pub enum StepModel {
    Rot13,
    StripMarkers(Seq<Seq<char>>),
    Base64Decode,
    CharShift(u32),
    Reverse,
    JsonParse(Seq<char>),
    RegexExtract(Seq<char>),
    CleanBase64,
    StripUnderscores,
    /// A step that no definition gives: what it makes of an input, and its name.
    Custom(spec_fn(Seq<char>) -> Option<Seq<char>>, Seq<char>),
}

impl View for DeobfuscationStep {
    type V = StepModel;

    open spec fn view(&self) -> StepModel {
        match self {
            DeobfuscationStep::Rot13 => StepModel::Rot13,
            DeobfuscationStep::StripMarkers { patterns } => StepModel::StripMarkers(
                texts(patterns@),
            ),
            DeobfuscationStep::Base64Decode => StepModel::Base64Decode,
            DeobfuscationStep::CharShift { amount } => StepModel::CharShift(*amount),
            DeobfuscationStep::Reverse => StepModel::Reverse,
            DeobfuscationStep::JsonParse { key } => StepModel::JsonParse(key@),
            DeobfuscationStep::RegexExtract { pattern } => StepModel::RegexExtract(pattern@),
            DeobfuscationStep::CleanBase64 => StepModel::CleanBase64,
            DeobfuscationStep::StripUnderscores => StepModel::StripUnderscores,
        }
    }
}

/// How to extract the media URL from deobfuscated data.
#[derive(Debug, Clone, PartialEq)]
pub enum UrlExtractionRule {
    /// Take the value of a JSON member: a string, or the best of an object's
    /// quality levels by preference and CDN rate limits.
    JsonKey {
        /// Member to look up.
        key: String,
        /// Lower numbers are tried first.
        priority: u32,
        /// Whether to append the `request` token as `rq` parameter.
        append_rq_token: bool,
        /// Whether to skip HLS playlists (`.m3u8`) from this member.
        prefer_mp4: bool,
    },
    /// Take the first capture group of a regex.
    RegexUrl { pattern: String, priority: u32 },
}

/// Quality preference order for multi-quality media objects.
#[derive(Debug, Clone, PartialEq)]
pub struct QualityPreference {
    /// Quality label.
    pub label: String,
    /// Rank: 0 is most preferred.
    pub rank: u32,
    /// Typical bitrate for this quality level.
    pub typical_bitrate_kbps: Option<u64>,
}

/// How to obfuscate the session activation payload.
#[derive(Debug, Clone, Copy, PartialEq, Eq, Structural)]
pub enum ActivationObfuscation {
    /// Plain JSON.
    Plain,
    /// JSON, Base64, reversed, shifted up by three.
    VoeEngineUpdate,
}

impl Default for ActivationObfuscation {
    fn default() -> (r: Self)
        ensures
            r == ActivationObfuscation::Plain,
    {
        ActivationObfuscation::Plain
    }
}

/// CDN-specific settings.
#[derive(Debug, Clone, PartialEq)]
pub struct CdnConfig {
    /// Query parameter that carries the speed limit.
    pub speed_limit_param: String,
    /// Whether to send an activation POST before downloading.
    pub requires_session_activation: bool,
    /// Path for the activation POST.
    pub activation_path: String,
    /// Obfuscation of the activation payload.
    pub activation_obfuscation: ActivationObfuscation,
}

pub fn default_true() -> (r: bool)
    ensures
        r,
{
    true
}

pub fn default_sp_param() -> (r: String)
    ensures
        r@ == "sp"@,
{
    owned("sp")
}

pub fn default_engine_update() -> (r: String)
    ensures
        r@ == "/engine/update"@,
{
    owned("/engine/update")
}

pub fn default_resolver_type() -> (r: ResolverType)
    ensures
        r == ResolverType::Custom,
{
    ResolverType::Custom
}

pub fn default_timeout_secs() -> (r: u64)
    ensures
        r == 15,
{
    15
}

impl Default for CdnConfig {
    fn default() -> (r: Self)
        ensures
            r.speed_limit_param@ == "sp"@,
            !r.requires_session_activation,
            r.activation_path@ == "/engine/update"@,
            r.activation_obfuscation == ActivationObfuscation::Plain,
    {
        CdnConfig {
            speed_limit_param: default_sp_param(),
            requires_session_activation: false,
            activation_path: default_engine_update(),
            activation_obfuscation: ActivationObfuscation::Plain,
        }
    }
}

/// Type of resolver to use for a provider.
#[derive(Debug, Clone, Copy, PartialEq, Eq, Structural)]
pub enum ResolverType {
    /// The deobfuscation pipeline of the configuration.
    Custom,
    /// A yt-dlp subprocess.
    YtDlp,
    /// The URL as it stands.
    Passthrough,
}

impl Default for ResolverType {
    fn default() -> (r: Self)
        ensures
            r == ResolverType::Custom,
    {
        ResolverType::Custom
    }
}

/// How to extract obfuscated data from a page.
#[derive(Debug)]
pub enum ContentExtraction {
    /// Text of `<script type="application/json">` tags.
    ScriptJsonTag,
    /// Value of a JavaScript variable.
    JsVariable { pattern: String },
    /// An HTML element: an attribute, or its text.
    CssSelector { selector: String, attribute: Option<String> },
    /// A regex match in the raw HTML.
    RegexMatch { pattern: String },
    /// Follow a script redirect first, then apply the inner extraction.
    JsRedirectThen { inner: Box<ContentExtraction> },
}

/// An entry in the deobfuscation pipeline.
#[derive(Debug)]
pub struct DeobfuscationPipelineEntry {
    /// Name for logging.
    pub name: String,
    /// How to extract the obfuscated data from the page.
    pub extraction: ContentExtraction,
    /// Ordered list of deobfuscation steps.
    pub steps: Vec<DeobfuscationStep>,
    /// Rules for extracting the media URL.
    pub url_extraction: Vec<UrlExtractionRule>,
    /// Whether to check for bait sources after extraction.
    pub check_bait: bool,
}

/// An action to take after successful resolution.
#[derive(Debug, Clone, PartialEq)]
pub enum PostResolveAction {
    /// Send an activation POST to the CDN.
    CdnSessionActivation,
    /// Append a query parameter from a JSON member.
    AppendQueryFromJson { json_key: String, param_name: String },
}

/// A URL transformation rule.
#[derive(Debug, Clone, PartialEq)]
pub struct UrlTransform {
    /// Regex to match the URL path.
    pub pattern: String,
    /// Replacement, with `$1`, `$2` for capture groups.
    pub replacement: String,
    /// Description for logging.
    pub description: String,
}

/// Configuration of one hosting provider.
#[derive(Debug)]
pub struct ProviderConfig {
    /// Human-readable provider name.
    pub name: String,
    /// Whether this provider is enabled.
    pub enabled: bool,
    /// Domain patterns for matching URLs to this provider.
    pub domain_patterns: Vec<DomainPattern>,
    /// The resolver type to use.
    pub resolver_type: ResolverType,
    /// Pipelines to try on a page.
    pub deobfuscation_pipeline: Vec<DeobfuscationPipelineEntry>,
    /// Rules for extracting the media URL.
    pub url_extraction: Vec<UrlExtractionRule>,
    /// Quality preference order.
    pub quality_preferences: Vec<QualityPreference>,
    /// CDN-specific settings.
    pub cdn: CdnConfig,
    /// Whether to forward cookies from page fetch to download.
    pub forward_cookies: bool,
    /// Custom headers to send with page fetches.
    pub request_headers: Vec<(String, String)>,
    /// Request timeout in seconds.
    pub timeout_secs: u64,
    /// Known bait domains.
    pub bait_domains: Vec<String>,
    /// Known bait filenames.
    pub bait_filenames: Vec<String>,
    /// How to find the obfuscated data in the page.
    pub content_extraction: Vec<ContentExtraction>,
    /// Actions to take after successful resolution.
    pub post_resolve: Vec<PostResolveAction>,
    /// URL transformation rules.
    pub url_transforms: Vec<UrlTransform>,
}

impl Default for ProviderConfig {
    /// Everything empty, disabled and without a timeout.
    fn default() -> (r: Self)
        ensures
            r.name@.len() == 0,
            !r.enabled,
            r.domain_patterns@.len() == 0,
            r.resolver_type == ResolverType::Custom,
            r.deobfuscation_pipeline@.len() == 0,
            r.url_extraction@.len() == 0,
            r.quality_preferences@.len() == 0,
            r.cdn.speed_limit_param@ == "sp"@,
            !r.cdn.requires_session_activation,
            r.cdn.activation_path@ == "/engine/update"@,
            r.cdn.activation_obfuscation == ActivationObfuscation::Plain,
            !r.forward_cookies,
            r.request_headers@.len() == 0,
            r.timeout_secs == 0,
            r.bait_domains@.len() == 0,
            r.bait_filenames@.len() == 0,
            r.content_extraction@.len() == 0,
            r.post_resolve@.len() == 0,
            r.url_transforms@.len() == 0,
    {
        ProviderConfig {
            name: String::new(),
            enabled: false,
            domain_patterns: Vec::new(),
            resolver_type: ResolverType::Custom,
            deobfuscation_pipeline: Vec::new(),
            url_extraction: Vec::new(),
            quality_preferences: Vec::new(),
            cdn: CdnConfig::default(),
            forward_cookies: false,
            request_headers: Vec::new(),
            timeout_secs: 0,
            bait_domains: Vec::new(),
            bait_filenames: Vec::new(),
            content_extraction: Vec::new(),
            post_resolve: Vec::new(),
            url_transforms: Vec::new(),
        }
    }
}

// ---------------------------------------------------------------------------
// Validation
// ---------------------------------------------------------------------------

/// `name[i]`.
pub open spec fn indexed(name: Seq<char>, i: int) -> Seq<char> {
    name + "["@ + decimal_text(i as nat) + "]"@
}

fn indexed_text(name: &str, i: usize) -> (r: String)
    ensures
        r@ == indexed(name@, i as int),
{
    let mut r = owned(name);
    push_text(&mut r, "[");
    push_text(&mut r, number_text(i as u64).as_str());
    push_text(&mut r, "]");
    r
}

/// The fault of a pattern that must compile, found at `context`.
pub open spec fn regex_fault(path: Seq<char>, context: Seq<char>, pattern: Seq<char>) -> Option<
    ConfigFault,
> {
    if regex_valid(pattern) {
        None
    } else {
        Some(ConfigFault::InvalidRegex { path, context, pattern })
    }
}

/// The first unusable domain pattern from `i` on.
pub open spec fn domain_fault(
    patterns: Seq<DomainPattern>,
    path: Seq<char>,
    i: int,
) -> Option<ConfigFault>
    decreases patterns.len() - i,
{
    if i < 0 || i >= patterns.len() {
        None
    } else if !pattern_usable(patterns[i]) {
        Some(
            ConfigFault::InvalidRegex {
                path,
                context: "domain pattern"@,
                pattern: patterns[i].pattern@,
            },
        )
    } else {
        domain_fault(patterns, path, i + 1)
    }
}

/// The first step from `j` on whose regex does not compile.
pub open spec fn step_fault(
    steps: Seq<DeobfuscationStep>,
    path: Seq<char>,
    place: Seq<char>,
    j: int,
) -> Option<ConfigFault>
    decreases steps.len() - j,
{
    if j < 0 || j >= steps.len() {
        None
    } else {
        match steps[j]@ {
            StepModel::RegexExtract(p) if !regex_valid(p) => regex_fault(
                path,
                indexed(place + ".steps"@, j),
                p,
            ),
            _ => step_fault(steps, path, place, j + 1),
        }
    }
}

/// The regex that an extraction itself applies.
pub open spec fn extraction_regex(extraction: ContentExtraction) -> Option<Seq<char>> {
    match extraction {
        ContentExtraction::JsVariable { pattern } => Some(pattern@),
        ContentExtraction::RegexMatch { pattern } => Some(pattern@),
        _ => None,
    }
}

/// The fault of an extraction: its own regex, or that of the extraction behind
/// one redirect.
pub open spec fn extraction_fault(
    extraction: ContentExtraction,
    path: Seq<char>,
    place: Seq<char>,
) -> Option<ConfigFault> {
    match extraction {
        ContentExtraction::JsRedirectThen { inner } => match extraction_regex(*inner) {
            Some(p) => regex_fault(path, place + ".extraction.redirect"@, p),
            None => None,
        },
        _ => match extraction_regex(extraction) {
            Some(p) => regex_fault(path, place + ".extraction"@, p),
            None => None,
        },
    }
}

/// The first URL rule from `j` on whose regex does not compile.
pub open spec fn rule_fault(
    rules: Seq<UrlExtractionRule>,
    path: Seq<char>,
    place: Seq<char>,
    j: int,
) -> Option<ConfigFault>
    decreases rules.len() - j,
{
    if j < 0 || j >= rules.len() {
        None
    } else {
        match rules[j] {
            UrlExtractionRule::RegexUrl { pattern, .. } if !regex_valid(pattern@) => regex_fault(
                path,
                indexed(place + ".url_extraction"@, j),
                pattern@,
            ),
            _ => rule_fault(rules, path, place, j + 1),
        }
    }
}

/// The fault of one pipeline entry: no steps, a step, the extraction, a rule.
pub open spec fn entry_fault(
    entry: DeobfuscationPipelineEntry,
    path: Seq<char>,
    place: Seq<char>,
) -> Option<ConfigFault> {
    if entry.steps@.len() == 0 {
        Some(ConfigFault::EmptyPipeline { path })
    } else if step_fault(entry.steps@, path, place, 0) is Some {
        step_fault(entry.steps@, path, place, 0)
    } else if extraction_fault(entry.extraction, path, place) is Some {
        extraction_fault(entry.extraction, path, place)
    } else {
        rule_fault(entry.url_extraction@, path, place, 0)
    }
}

/// The first fault among the pipeline entries from `i` on.
pub open spec fn pipeline_fault(
    entries: Seq<DeobfuscationPipelineEntry>,
    path: Seq<char>,
    i: int,
) -> Option<ConfigFault>
    decreases entries.len() - i,
{
    if i < 0 || i >= entries.len() {
        None
    } else if entry_fault(entries[i], path, indexed("pipeline"@, i)) is Some {
        entry_fault(entries[i], path, indexed("pipeline"@, i))
    } else {
        pipeline_fault(entries, path, i + 1)
    }
}

/// The first URL transform from `i` on whose regex does not compile.
pub open spec fn transform_fault(
    transforms: Seq<UrlTransform>,
    path: Seq<char>,
    i: int,
) -> Option<ConfigFault>
    decreases transforms.len() - i,
{
    if i < 0 || i >= transforms.len() {
        None
    } else if !regex_valid(transforms[i].pattern@) {
        regex_fault(path, indexed("url_transforms"@, i), transforms[i].pattern@)
    } else {
        transform_fault(transforms, path, i + 1)
    }
}

/// The first fault of a configuration.
pub open spec fn config_fault(config: ProviderConfig, path: Seq<char>) -> Option<ConfigFault> {
    if config.name@.len() == 0 {
        Some(ConfigFault::MissingField { path, field: "name"@ })
    } else if config.domain_patterns@.len() == 0 {
        Some(ConfigFault::MissingField { path, field: "domain_patterns"@ })
    } else if domain_fault(config.domain_patterns@, path, 0) is Some {
        domain_fault(config.domain_patterns@, path, 0)
    } else if pipeline_fault(config.deobfuscation_pipeline@, path, 0) is Some {
        pipeline_fault(config.deobfuscation_pipeline@, path, 0)
    } else {
        transform_fault(config.url_transforms@, path, 0)
    }
}

/// What a check reports: nothing, or exactly the given fault.
pub open spec fn reports(r: Result<(), ProviderConfigError>, fault: Option<ConfigFault>) -> bool {
    match r {
        Ok(_) => fault is None,
        Err(e) => fault == Some(e@),
    }
}

fn invalid_regex(path: &str, context: String, pattern: &str) -> (r: ProviderConfigError)
    ensures
        r@ == (ConfigFault::InvalidRegex { path: path@, context: context@, pattern: pattern@ }),
{
    ProviderConfigError::InvalidRegex { path: owned(path), context, pattern: owned(pattern) }
}

fn check_domains(patterns: &Vec<DomainPattern>, path: &str) -> (r: Result<(), ProviderConfigError>)
    ensures
        reports(r, domain_fault(patterns@, path@, 0)),
{
    let mut i: usize = 0;
    while i < patterns.len()
        invariant
            i <= patterns@.len(),
            domain_fault(patterns@, path@, 0) == domain_fault(patterns@, path@, i as int),
        decreases patterns.len() - i,
    {
        match patterns[i].validate_regex() {
            Ok(_) => {},
            Err(_) => {
                return Err(
                    invalid_regex(path, owned("domain pattern"), patterns[i].pattern.as_str()),
                );
            },
        }
        i = i + 1;
    }
    Ok(())
}

fn check_steps(steps: &Vec<DeobfuscationStep>, path: &str, place: &str) -> (r: Result<
    (),
    ProviderConfigError,
>)
    ensures
        reports(r, step_fault(steps@, path@, place@, 0)),
{
    let mut j: usize = 0;
    while j < steps.len()
        invariant
            j <= steps@.len(),
            step_fault(steps@, path@, place@, 0) == step_fault(steps@, path@, place@, j as int),
        decreases steps.len() - j,
    {
        match &steps[j] {
            DeobfuscationStep::RegexExtract { pattern } => {
                if !pattern_compiles(pattern.as_str()) {
                    let mut context = owned(place);
                    push_text(&mut context, ".steps");
                    return Err(
                        invalid_regex(path, indexed_text(context.as_str(), j), pattern.as_str()),
                    );
                }
            },
            _ => {},
        }
        j = j + 1;
    }
    Ok(())
}

fn check_extraction(extraction: &ContentExtraction, path: &str, place: &str) -> (r: Result<
    (),
    ProviderConfigError,
>)
    ensures
        reports(r, extraction_fault(*extraction, path@, place@)),
{
    match extraction {
        ContentExtraction::JsVariable { pattern } | ContentExtraction::RegexMatch { pattern } => {
            if pattern_compiles(pattern.as_str()) {
                Ok(())
            } else {
                let mut context = owned(place);
                push_text(&mut context, ".extraction");
                Err(invalid_regex(path, context, pattern.as_str()))
            }
        },
        ContentExtraction::JsRedirectThen { inner } => match &**inner {
            ContentExtraction::JsVariable { pattern }
            | ContentExtraction::RegexMatch { pattern } => {
                if pattern_compiles(pattern.as_str()) {
                    Ok(())
                } else {
                    let mut context = owned(place);
                    push_text(&mut context, ".extraction.redirect");
                    Err(invalid_regex(path, context, pattern.as_str()))
                }
            },
            _ => Ok(()),
        },
        _ => Ok(()),
    }
}

fn check_rules(rules: &Vec<UrlExtractionRule>, path: &str, place: &str) -> (r: Result<
    (),
    ProviderConfigError,
>)
    ensures
        reports(r, rule_fault(rules@, path@, place@, 0)),
{
    let mut j: usize = 0;
    while j < rules.len()
        invariant
            j <= rules@.len(),
            rule_fault(rules@, path@, place@, 0) == rule_fault(rules@, path@, place@, j as int),
        decreases rules.len() - j,
    {
        match &rules[j] {
            UrlExtractionRule::RegexUrl { pattern, .. } => {
                if !pattern_compiles(pattern.as_str()) {
                    let mut context = owned(place);
                    push_text(&mut context, ".url_extraction");
                    return Err(
                        invalid_regex(path, indexed_text(context.as_str(), j), pattern.as_str()),
                    );
                }
            },
            _ => {},
        }
        j = j + 1;
    }
    Ok(())
}

fn check_entry(entry: &DeobfuscationPipelineEntry, path: &str, place: &str) -> (r: Result<
    (),
    ProviderConfigError,
>)
    ensures
        reports(r, entry_fault(*entry, path@, place@)),
{
    if entry.steps.len() == 0 {
        return Err(ProviderConfigError::EmptyPipeline { path: owned(path) });
    }
    match check_steps(&entry.steps, path, place) {
        Err(e) => {
            return Err(e);
        },
        Ok(_) => {},
    }
    match check_extraction(&entry.extraction, path, place) {
        Err(e) => {
            return Err(e);
        },
        Ok(_) => {},
    }
    check_rules(&entry.url_extraction, path, place)
}

impl ProviderConfig {
    /// Validate the provider config, returning the first issue.
    pub fn validate(&self, path: &str) -> (r: Result<(), ProviderConfigError>)
        ensures
            match r {
                Ok(_) => config_fault(*self, path@) is None,
                Err(e) => config_fault(*self, path@) == Some(e@),
            },
    {
        if self.name.as_str().is_empty() {
            return Err(
                ProviderConfigError::MissingField { path: owned(path), field: owned("name") },
            );
        }
        if self.domain_patterns.len() == 0 {
            return Err(
                ProviderConfigError::MissingField {
                    path: owned(path),
                    field: owned("domain_patterns"),
                },
            );
        }
        match check_domains(&self.domain_patterns, path) {
            Err(e) => {
                return Err(e);
            },
            Ok(_) => {},
        }
        let mut i: usize = 0;
        while i < self.deobfuscation_pipeline.len()
            invariant
                i <= self.deobfuscation_pipeline@.len(),
                self.name@.len() > 0,
                self.domain_patterns@.len() > 0,
                domain_fault(self.domain_patterns@, path@, 0) is None,
                pipeline_fault(self.deobfuscation_pipeline@, path@, 0) == pipeline_fault(
                    self.deobfuscation_pipeline@,
                    path@,
                    i as int,
                ),
            decreases self.deobfuscation_pipeline.len() - i,
        {
            let place = indexed_text("pipeline", i);
            match check_entry(&self.deobfuscation_pipeline[i], path, place.as_str()) {
                Err(e) => {
                    return Err(e);
                },
                Ok(_) => {},
            }
            i = i + 1;
        }
        let mut k: usize = 0;
        while k < self.url_transforms.len()
            invariant
                k <= self.url_transforms@.len(),
                self.name@.len() > 0,
                self.domain_patterns@.len() > 0,
                domain_fault(self.domain_patterns@, path@, 0) is None,
                pipeline_fault(self.deobfuscation_pipeline@, path@, 0) is None,
                transform_fault(self.url_transforms@, path@, 0) == transform_fault(
                    self.url_transforms@,
                    path@,
                    k as int,
                ),
            decreases self.url_transforms.len() - k,
        {
            let pattern = self.url_transforms[k].pattern.as_str();
            if !pattern_compiles(pattern) {
                return Err(invalid_regex(path, indexed_text("url_transforms", k), pattern));
            }
            k = k + 1;
        }
        Ok(())
    }

    /// Check if a hostname matches any of this provider's domain patterns.
    pub fn matches_domain(&self, host: &str) -> (r: bool)
        ensures
            r == config_covers(*self, host@),
    {
        let mut i: usize = 0;
        while i < self.domain_patterns.len()
            invariant
                i <= self.domain_patterns@.len(),
                forall|k: int|
                    0 <= k < i ==> !pattern_covers(#[trigger] self.domain_patterns@[k], host@),
            decreases self.domain_patterns.len() - i,
        {
            if self.domain_patterns[i].matches(host) {
                return true;
            }
            i = i + 1;
        }
        false
    }
}

/// Whether some domain pattern of a configuration covers a hostname.
pub open spec fn config_covers(config: ProviderConfig, host: Seq<char>) -> bool {
    exists|k: int|
        0 <= k < config.domain_patterns@.len() && pattern_covers(
            #[trigger] config.domain_patterns@[k],
            host,
        )
}

// ---------------------------------------------------------------------------
// Registry
// ---------------------------------------------------------------------------

/// Registry of all loaded provider configurations, in the order of loading.
#[derive(Debug)]
pub struct ProviderRegistry {
    providers: Vec<(String, ProviderConfig)>,
}

/// A configuration file found in the providers directory.
#[derive(Debug)]
pub struct ProviderFile {
    /// Where the file lies.
    pub path: String,
    /// The provider's ID: the file name without `.toml`.
    pub id: String,
    /// What reading and parsing the file gave.
    pub config: Result<ProviderConfig, ProviderConfigError>,
}

/// The index of the first provider with a given name.
pub open spec fn named_at(
    providers: Seq<(Seq<char>, ProviderConfig)>,
    name: Seq<char>,
    from: int,
) -> Option<int>
    decreases providers.len() - from,
{
    if from < 0 || from >= providers.len() {
        None
    } else if providers[from].1.name@ == name {
        Some(from)
    } else {
        named_at(providers, name, from + 1)
    }
}

/// The clash of a configuration with one that another ID has under its name.
pub open spec fn name_clash(
    providers: Seq<(Seq<char>, ProviderConfig)>,
    dir: Seq<char>,
    path: Seq<char>,
    id: Seq<char>,
    name: Seq<char>,
) -> Option<ConfigFault> {
    match named_at(providers, name, 0) {
        Some(k) => if providers[k].0 == id {
            None
        } else {
            Some(
                ConfigFault::DuplicateName {
                    name,
                    path1: path,
                    path2: dir + "/"@ + providers[k].0 + ".toml"@,
                },
            )
        },
        None => None,
    }
}

/// Why a configuration is refused: a fault of its own, or, where it is
/// enabled, a name taken by another ID.
pub open spec fn refusal(
    providers: Seq<(Seq<char>, ProviderConfig)>,
    dir: Seq<char>,
    path: Seq<char>,
    id: Seq<char>,
    config: ProviderConfig,
) -> Option<ConfigFault> {
    if config_fault(config, path) is Some {
        config_fault(config, path)
    } else if config.enabled {
        name_clash(providers, dir, path, id, config.name@)
    } else {
        None
    }
}

/// The providers after the first `n` files, or the first refusal among them.
pub open spec fn loaded(
    dir: Seq<char>,
    files: Seq<ProviderFile>,
    n: int,
) -> Result<Seq<(Seq<char>, ProviderConfig)>, ConfigFault>
    decreases n,
{
    if n <= 0 {
        Ok(Seq::empty())
    } else {
        match loaded(dir, files, n - 1) {
            Err(fault) => Err(fault),
            Ok(providers) => {
                let file = files[n - 1];
                match file.config {
                    Err(e) => Err(e@),
                    Ok(config) => match refusal(providers, dir, file.path@, file.id@, config) {
                        Some(fault) => Err(fault),
                        None => Ok(
                            if config.enabled {
                                providers.push((file.id@, config))
                            } else {
                                providers
                            },
                        ),
                    },
                }
            },
        }
    }
}

/// The provider ID that a file name stands for: the part before `.toml`.
pub open spec fn id_of_file(name: Seq<char>) -> Option<Seq<char>> {
    if name.len() > 5 && ends_with(name, ".toml"@) {
        Some(name.take(name.len() - 5))
    } else {
        None
    }
}

/// The provider ID that a file name stands for.
pub fn provider_id(name: &str) -> (r: Option<String>)
    ensures
        crate::text::opt_text(r) == id_of_file(name@),
{
    let v = chars_of(name);
    if v.len() > 5 && str_ends_with(name, ".toml") {
        let r = substring(&v, 0, v.len() - 5);
        assert(r@ =~= name@.take(name@.len() - 5));
        Some(r)
    } else {
        None
    }
}

/// All domain patterns of the first `n` providers, in order.
pub open spec fn patterns_of(
    providers: Seq<(Seq<char>, ProviderConfig)>,
    n: int,
) -> Seq<DomainPattern>
    decreases n,
{
    if n <= 0 {
        Seq::empty()
    } else {
        patterns_of(providers, n - 1) + providers[n - 1].1.domain_patterns@
    }
}

impl View for ProviderRegistry {
    type V = Seq<(Seq<char>, ProviderConfig)>;

    closed spec fn view(&self) -> Seq<(Seq<char>, ProviderConfig)> {
        Seq::new(self.providers@.len(), |i: int| (self.providers@[i].0@, self.providers@[i].1))
    }
}

impl Default for ProviderRegistry {
    fn default() -> (r: Self)
        ensures
            r@ == Seq::<(Seq<char>, ProviderConfig)>::empty(),
    {
        ProviderRegistry::new()
    }
}

impl ProviderRegistry {
    /// Create an empty registry.
    pub fn new() -> (r: Self)
        ensures
            r@ == Seq::<(Seq<char>, ProviderConfig)>::empty(),
    {
        let r = ProviderRegistry { providers: Vec::new() };
        assert(r@ =~= Seq::<(Seq<char>, ProviderConfig)>::empty());
        r
    }

    /// Takes in one parsed configuration file: refuses faults and taken names,
    /// passes over disabled providers, and otherwise appends. Returns whether
    /// the provider was appended.
    pub fn register(&mut self, dir: &str, path: &str, id: String, config: ProviderConfig) -> (r:
        Result<bool, ProviderConfigError>)
        ensures
            match r {
                Err(e) => {
                    &&& refusal(old(self)@, dir@, path@, id@, config) == Some(e@)
                    &&& final(self)@ == old(self)@
                },
                Ok(appended) => {
                    &&& refusal(old(self)@, dir@, path@, id@, config) is None
                    &&& appended == config.enabled
                    &&& final(self)@ == if appended {
                        old(self)@.push((id@, config))
                    } else {
                        old(self)@
                    }
                },
            },
    {
        match config.validate(path) {
            Err(e) => {
                return Err(e);
            },
            Ok(_) => {},
        }
        if !config.enabled {
            return Ok(false);
        }
        match self.index_of_name(config.name.as_str()) {
            Some(k) => {
                if !same_text(self.providers[k].0.as_str(), id.as_str()) {
                    let mut other = join3(dir, "/", self.providers[k].0.as_str());
                    push_text(&mut other, ".toml");
                    return Err(
                        ProviderConfigError::DuplicateName {
                            name: owned(config.name.as_str()),
                            path1: owned(path),
                            path2: other,
                        },
                    );
                }
            },
            None => {},
        }
        self.add(id, config);
        Ok(true)
    }

    fn index_of_name(&self, name: &str) -> (r: Option<usize>)
        ensures
            match r {
                Some(k) => k < self@.len() && named_at(self@, name@, 0) == Some(k as int),
                None => named_at(self@, name@, 0) is None,
            },
    {
        let mut i: usize = 0;
        while i < self.providers.len()
            invariant
                i <= self.providers@.len(),
                named_at(self@, name@, 0) == named_at(self@, name@, i as int),
            decreases self.providers.len() - i,
        {
            assert(self@[i as int].1 == self.providers@[i as int].1);
            if same_text(self.providers[i].1.name.as_str(), name) {
                return Some(i);
            }
            i = i + 1;
        }
        None
    }

    /// Loads the configuration files of a directory in the order in which they
    /// were listed; the first refusal, or the failure to list, is returned.
    #[verifier::loop_isolation(false)]
    pub fn load_from_dir(
        dir: &str,
        listing: Result<Vec<ProviderFile>, ProviderConfigError>,
    ) -> (r: Result<Self, ProviderConfigError>)
        ensures
            match (listing, r) {
                (Err(cause), Err(e)) => e@ == cause@,
                (Err(_), Ok(_)) => false,
                (Ok(files), Ok(registry)) => loaded(dir@, files@, files@.len() as int) == Ok::<
                    Seq<(Seq<char>, ProviderConfig)>,
                    ConfigFault,
                >(registry@),
                (Ok(files), Err(e)) => loaded(dir@, files@, files@.len() as int) == Err::<
                    Seq<(Seq<char>, ProviderConfig)>,
                    ConfigFault,
                >(e@),
            },
    {
        let ghost all = listing->Ok_0@;
        let mut files = match listing {
            Ok(files) => files,
            Err(e) => {
                return Err(e);
            },
        };
        let mut registry = ProviderRegistry::new();
        let mut done: usize = 0;
        let total: usize = files.len();
        assert(all.skip(0) =~= all);
        while done < total
            invariant
                done <= total == all.len(),
                files@ == all.skip(done as int),
                loaded(dir@, all, done as int) == Ok::<
                    Seq<(Seq<char>, ProviderConfig)>,
                    ConfigFault,
                >(registry@),
            decreases total - done,
        {
            let file = files.remove(0);
            assert(file == all[done as int]);
            assert(files@ =~= all.skip(done + 1));
            match file.config {
                Err(e) => {
                    proof {
                        lemma_loaded_stays_refused(dir@, all, done + 1, all.len() as int);
                    }
                    return Err(e);
                },
                Ok(config) => {
                    match registry.register(dir, file.path.as_str(), file.id, config) {
                        Err(e) => {
                            proof {
                                lemma_loaded_stays_refused(dir@, all, done + 1, all.len() as int);
                            }
                            return Err(e);
                        },
                        Ok(_) => {},
                    }
                },
            }
            done = done + 1;
        }
        Ok(registry)
    }

    /// Loads a directory; where that fails the registry stays empty.
    pub fn load_from_dir_or_empty(
        dir: &str,
        listing: Result<Vec<ProviderFile>, ProviderConfigError>,
    ) -> (r: Self)
        ensures
            r@ == match listing {
                Ok(files) => match loaded(dir@, files@, files@.len() as int) {
                    Ok(providers) => providers,
                    Err(_) => Seq::empty(),
                },
                Err(_) => Seq::empty(),
            },
    {
        match Self::load_from_dir(dir, listing) {
            Ok(registry) => registry,
            Err(_) => ProviderRegistry::new(),
        }
    }

    /// The first provider, in the order of loading, whose domain patterns
    /// match the hostname, with its ID.
    pub fn find_provider_for_host(&self, host: &str) -> (r: Option<(&str, &ProviderConfig)>)
        ensures
            match r {
                Some((id, config)) => exists|i: int|
                    {
                        &&& 0 <= i < self@.len()
                        &&& #[trigger] self@[i] == (id@, *config)
                        &&& config_covers(*config, host@)
                        &&& forall|j: int|
                            0 <= j < i ==> !config_covers((#[trigger] self@[j]).1, host@)
                    },
                None => forall|j: int|
                    0 <= j < self@.len() ==> !config_covers((#[trigger] self@[j]).1, host@),
            },
    {
        let mut i: usize = 0;
        while i < self.providers.len()
            invariant
                i <= self.providers@.len() == self@.len(),
                forall|j: int| 0 <= j < i ==> !config_covers((#[trigger] self@[j]).1, host@),
            decreases self.providers.len() - i,
        {
            assert(self@[i as int] == (self.providers@[i as int].0@, self.providers@[i as int].1));
            if self.providers[i].1.matches_domain(host) {
                return Some((self.providers[i].0.as_str(), &self.providers[i].1));
            }
            i = i + 1;
        }
        None
    }

    /// The first provider with the given ID.
    pub fn get_by_id(&self, id: &str) -> (r: Option<&ProviderConfig>)
        ensures
            match r {
                Some(config) => exists|i: int|
                    {
                        &&& 0 <= i < self@.len()
                        &&& #[trigger] self@[i] == (id@, *config)
                        &&& forall|j: int| 0 <= j < i ==> (#[trigger] self@[j]).0 != id@
                    },
                None => forall|j: int| 0 <= j < self@.len() ==> (#[trigger] self@[j]).0 != id@,
            },
    {
        let mut i: usize = 0;
        while i < self.providers.len()
            invariant
                i <= self.providers@.len() == self@.len(),
                forall|j: int| 0 <= j < i ==> (#[trigger] self@[j]).0 != id@,
            decreases self.providers.len() - i,
        {
            assert(self@[i as int] == (self.providers@[i as int].0@, self.providers@[i as int].1));
            if same_text(self.providers[i].0.as_str(), id) {
                return Some(&self.providers[i].1);
            }
            i = i + 1;
        }
        None
    }

    /// All loaded providers.
    pub fn providers(&self) -> (r: &[(String, ProviderConfig)])
        ensures
            r@.len() == self@.len(),
            forall|i: int|
                0 <= i < r@.len() ==> (#[trigger] r@[i]).0@ == self@[i].0 && r@[i].1 == self@[i].1,
    {
        self.providers.as_slice()
    }

    /// Adds a provider at the end.
    pub fn add(&mut self, id: String, config: ProviderConfig)
        ensures
            final(self)@ == old(self)@.push((id@, config)),
    {
        self.providers.push((id, config));
        assert(self@ =~= old(self)@.push((id@, config)));
    }

    /// All domain patterns across all providers.
    pub fn all_domain_patterns(&self) -> (r: Vec<&DomainPattern>)
        ensures
            Seq::new(r@.len(), |k: int| *r@[k]) == patterns_of(self@, self@.len() as int),
    {
        let mut r: Vec<&DomainPattern> = Vec::new();
        let mut i: usize = 0;
        while i < self.providers.len()
            invariant
                i <= self.providers@.len() == self@.len(),
                Seq::new(r@.len(), |k: int| *r@[k]) =~= patterns_of(self@, i as int),
            decreases self.providers.len() - i,
        {
            let patterns = &self.providers[i].1.domain_patterns;
            assert(self@[i as int].1.domain_patterns@ == patterns@);
            let ghost before = patterns_of(self@, i as int);
            let mut k: usize = 0;
            assert(before + patterns@.take(0) =~= before);
            while k < patterns.len()
                invariant
                    k <= patterns@.len(),
                    Seq::new(r@.len(), |k: int| *r@[k]) =~= before + patterns@.take(k as int),
                decreases patterns.len() - k,
            {
                let ghost prior = Seq::new(r@.len(), |k: int| *r@[k]);
                r.push(&patterns[k]);
                k = k + 1;
                assert(Seq::new(r@.len(), |k: int| *r@[k]) =~= prior.push(patterns@[k - 1]));
                assert(before + patterns@.take(k as int) =~= (before + patterns@.take(
                    k - 1,
                )).push(patterns@[k - 1]));
            }
            assert(patterns@.take(patterns@.len() as int) =~= patterns@);
            i = i + 1;
        }
        r
    }
}

proof fn lemma_loaded_stays_refused(
    dir: Seq<char>,
    files: Seq<ProviderFile>,
    m: int,
    n: int,
)
    requires
        0 <= m <= n,
        loaded(dir, files, m) is Err,
    ensures
        loaded(dir, files, n) == loaded(dir, files, m),
    decreases n - m,
{
    if m < n {
        lemma_loaded_stays_refused(dir, files, m, n - 1);
    }
}

/// No two loaded providers under different IDs share a name.
pub proof fn lemma_loaded_names_unique(dir: Seq<char>, files: Seq<ProviderFile>, n: int)
    requires
        0 <= n <= files.len(),
        loaded(dir, files, n) is Ok,
    ensures
        ({
            let providers = loaded(dir, files, n)->Ok_0;
            forall|i: int, j: int|
                0 <= i < j < providers.len() && (#[trigger] providers[i]).1.name@ == (
                #[trigger] providers[j]).1.name@ ==> providers[i].0 == providers[j].0
        }),
    decreases n,
{
    if n > 0 {
        lemma_loaded_names_unique(dir, files, n - 1);
        let before = loaded(dir, files, n - 1)->Ok_0;
        let after = loaded(dir, files, n)->Ok_0;
        let file = files[n - 1];
        if after.len() > before.len() {
            let name = file.config->Ok_0.name@;
            assert forall|i: int, j: int|
                0 <= i < j < after.len() && (#[trigger] after[i]).1.name@ == (
                #[trigger] after[j]).1.name@ implies after[i].0 == after[j].0 by {
                if j == before.len() {
                    lemma_named_at(before, name, 0);
                    let k = named_at(before, name, 0)->0;
                    assert(before[i].1.name@ == name);
                    assert(before[k].0 == file.id@);
                    if k < i {
                        assert(before[k].1.name@ == before[i].1.name@);
                    }
                } else {
                    assert(before[i].1.name@ == before[j].1.name@);
                }
            }
        }
    }
}

/// What `named_at` finds: the first provider of a name, or none is there.
pub proof fn lemma_named_at(providers: Seq<(Seq<char>, ProviderConfig)>, name: Seq<char>, from: int)
    requires
        0 <= from,
    ensures
        match named_at(providers, name, from) {
            Some(k) => from <= k < providers.len() && providers[k].1.name@ == name && forall|j: int|
                from <= j < k ==> (#[trigger] providers[j]).1.name@ != name,
            None => forall|j: int|
                from <= j < providers.len() ==> (#[trigger] providers[j]).1.name@ != name,
        },
    decreases providers.len() - from,
{
    if from < providers.len() && providers[from].1.name@ != name {
        lemma_named_at(providers, name, from + 1);
    }
}

} // verus!
