//! Laws of configuration: where settings come from, and which provider
//! configurations are accepted.

use crate::config::{built_in, first_marked, overridden, search_paths, ConfigModel, Environment};
use crate::patterns::{regex_matches, regex_valid};
use crate::provider::{
    config_covers, config_fault, domain_fault, entry_fault, extraction_fault, fault_text,
    id_of_file, indexed, lemma_named_at, loaded, name_clash, named_at, pattern_covers,
    pattern_usable, patterns_of, pipeline_fault, refusal, reports, rule_fault, step_fault,
    transform_fault, ConfigFault, ContentExtraction, DeobfuscationPipelineEntry, DeobfuscationStep,
    DomainMatchKind, DomainPattern, ProviderConfig, ProviderConfigError, ProviderFile,
    UrlExtractionRule, UrlTransform,
};
use crate::text::{all_digits, decimal_text, decimal_value, is_digit, lower};
use vstd::prelude::*;

verus! {

// ---------------------------------------------------------------------------
// Settings
// ---------------------------------------------------------------------------

/// Whether a setting is the variable's where that is set, and else the file's.
pub open spec fn settled(set: Option<String>, file: Seq<char>, out: Seq<char>) -> bool {
    &&& set matches Some(v) ==> out == v@
    &&& set is None ==> out == file
}

/// Whether a port is the variable's where that writes one, and else the file's.
pub open spec fn port_settled(set: Option<String>, file: u16, out: u16) -> bool {
    &&& set is None ==> out == file
    &&& set matches Some(v) ==> {
        &&& v@.len() > 0 && all_digits(v@) && decimal_value(v@) <= 65535 ==> out == decimal_value(
            v@,
        )
        &&& v@.len() > 0 && all_digits(v@) && decimal_value(v@) > 65535 ==> out == file
        &&& v@.len() == 0 ==> out == file
    }
}

/// Each variable decides its own setting, and no other.
pub proof fn law_variables_decide(file: ConfigModel, env: Environment)
    ensures
        ({
            let out = overridden(file, env);
            &&& settled(env.http_addr, file.http_addr, out.http_addr)
            &&& settled(env.ws_addr, file.ws_addr, out.ws_addr)
            &&& settled(env.db_path, file.db_path, out.db_path)
            &&& settled(env.tls_cert, file.tls_cert_path, out.tls_cert_path)
            &&& settled(env.tls_key, file.tls_key_path, out.tls_key_path)
            &&& settled(env.tor_socks, file.socks_addr, out.socks_addr)
            &&& settled(env.tor_cookie_path, file.cookie_path, out.cookie_path)
            &&& settled(env.drm_device, file.drm_device, out.drm_device)
            &&& settled(env.audio_device, file.audio_device, out.audio_device)
            &&& settled(env.dlna_name, file.friendly_name, out.friendly_name)
            &&& settled(env.log_level, file.level, out.level)
            &&& port_settled(env.tor_control_port, file.control_port, out.control_port)
            &&& port_settled(env.dlna_port, file.dlna_port, out.dlna_port)
        }),
{
    lemma_no_plus(env.tor_control_port);
    lemma_no_plus(env.dlna_port);
}

proof fn lemma_no_plus(set: Option<String>)
    ensures
        set matches Some(v) ==> (v@.len() > 0 && all_digits(v@) ==> v@[0] != '+'),
{
    if let Some(v) = set {
        if v@.len() > 0 && all_digits(v@) {
            assert(is_digit(v@[0]));
        }
    }
}

/// What holds without a file and without variables.
pub proof fn law_defaults()
    ensures
        built_in().http_addr == "0.0.0.0:8585"@,
        built_in().ws_addr == "0.0.0.0:8586"@,
        built_in().db_path == "/var/lib/picast/sessions.db"@,
        built_in().socks_addr == "127.0.0.1:9050"@,
        built_in().control_port == 9051,
        built_in().cookie_path == "/run/tor/control.authcookie"@,
        built_in().friendly_name == "PiCast"@,
        built_in().dlna_port == 49152,
        built_in().level == "info"@,
        built_in().tls_cert_path.len() == 0,
        built_in().tls_key_path.len() == 0,
        built_in().drm_device.len() == 0,
        built_in().audio_device.len() == 0,
{
}

/// Files are looked for in the working directory, then in `/etc`, then in
/// `/usr/local/etc`; the first that exists counts.
pub proof fn law_search_order(found: Seq<bool>)
    requires
        found.len() == 3,
    ensures
        search_paths() == seq![
            "picast.toml"@,
            "/etc/picast/picast.toml"@,
            "/usr/local/etc/picast/picast.toml"@,
        ],
        match first_marked(found, 0) {
            Some(k) => 0 <= k < 3 && found[k] && forall|j: int| 0 <= j < k ==> !#[trigger] found[j],
            None => !found[0] && !found[1] && !found[2],
        },
{
    reveal_with_fuel(first_marked, 4);
}

// ---------------------------------------------------------------------------
// Domain patterns
// ---------------------------------------------------------------------------

/// An exact pattern is the host, in either case; a suffix covers the host and
/// what lies below it; a regex is searched for in the host.
pub proof fn law_pattern(p: DomainPattern, host: Seq<char>)
    ensures
        p.kind == DomainMatchKind::Exact ==> (pattern_covers(p, host) <==> lower(host) == lower(
            p.pattern@,
        )),
        p.kind == DomainMatchKind::Suffix ==> (pattern_covers(p, host)
            <==> crate::laws::routing::covers(lower(p.pattern@), lower(host))),
        p.kind == DomainMatchKind::Regex ==> (pattern_covers(p, host) <==> regex_matches(
            p.pattern@,
            host,
        )),
        pattern_usable(p) <==> p.kind != DomainMatchKind::Regex || regex_valid(p.pattern@),
{
    crate::laws::routing::law_domain_covers(lower(host), lower(p.pattern@));
}

/// A provider covers a host exactly where one of its patterns does.
pub proof fn law_provider_covers(config: ProviderConfig, host: Seq<char>, k: int)
    ensures
        0 <= k < config.domain_patterns@.len() && pattern_covers(config.domain_patterns@[k], host)
            ==> config_covers(config, host),
        config.domain_patterns@.len() == 0 ==> !config_covers(config, host),
{
}

// ---------------------------------------------------------------------------
// Validation
// ---------------------------------------------------------------------------

/// Whether every regex that an extraction applies compiles.
pub open spec fn extraction_compiles(extraction: ContentExtraction) -> bool {
    match extraction {
        ContentExtraction::JsVariable { pattern } => regex_valid(pattern@),
        ContentExtraction::RegexMatch { pattern } => regex_valid(pattern@),
        ContentExtraction::JsRedirectThen { inner } => match *inner {
            ContentExtraction::JsVariable { pattern } => regex_valid(pattern@),
            ContentExtraction::RegexMatch { pattern } => regex_valid(pattern@),
            _ => true,
        },
        _ => true,
    }
}

/// Whether a step's regex, if it has one, compiles.
pub open spec fn step_compiles(step: DeobfuscationStep) -> bool {
    step matches DeobfuscationStep::RegexExtract { pattern } ==> regex_valid(pattern@)
}

/// Whether a rule's regex, if it has one, compiles.
pub open spec fn rule_compiles(rule: UrlExtractionRule) -> bool {
    rule matches UrlExtractionRule::RegexUrl { pattern, .. } ==> regex_valid(pattern@)
}

/// Whether a pipeline entry has steps, and every regex in it compiles.
pub open spec fn entry_sound(entry: DeobfuscationPipelineEntry) -> bool {
    &&& entry.steps@.len() > 0
    &&& forall|j: int| 0 <= j < entry.steps@.len() ==> step_compiles(#[trigger] entry.steps@[j])
    &&& extraction_compiles(entry.extraction)
    &&& forall|j: int|
        0 <= j < entry.url_extraction@.len() ==> rule_compiles(#[trigger] entry.url_extraction@[j])
}

/// Whether a configuration has a name and domains, and is sound throughout.
pub open spec fn config_sound(config: ProviderConfig) -> bool {
    &&& config.name@.len() > 0
    &&& config.domain_patterns@.len() > 0
    &&& forall|j: int|
        0 <= j < config.domain_patterns@.len() ==> pattern_usable(
            #[trigger] config.domain_patterns@[j],
        )
    &&& forall|j: int|
        0 <= j < config.deobfuscation_pipeline@.len() ==> entry_sound(
            #[trigger] config.deobfuscation_pipeline@[j],
        )
    &&& forall|j: int|
        0 <= j < config.url_transforms@.len() ==> regex_valid(
            (#[trigger] config.url_transforms@[j]).pattern@,
        )
}

proof fn lemma_steps_checked(
    steps: Seq<DeobfuscationStep>,
    path: Seq<char>,
    place: Seq<char>,
    j: int,
)
    requires
        0 <= j,
    ensures
        step_fault(steps, path, place, j) is None <==> forall|i: int|
            j <= i < steps.len() ==> step_compiles(#[trigger] steps[i]),
    decreases steps.len() - j,
{
    if j < steps.len() {
        lemma_steps_checked(steps, path, place, j + 1);
        if step_fault(steps, path, place, j) is None {
            assert(step_compiles(steps[j]));
        }
    }
}

proof fn lemma_rules_checked(
    rules: Seq<UrlExtractionRule>,
    path: Seq<char>,
    place: Seq<char>,
    j: int,
)
    requires
        0 <= j,
    ensures
        rule_fault(rules, path, place, j) is None <==> forall|i: int|
            j <= i < rules.len() ==> rule_compiles(#[trigger] rules[i]),
    decreases rules.len() - j,
{
    if j < rules.len() {
        lemma_rules_checked(rules, path, place, j + 1);
        if rule_fault(rules, path, place, j) is None {
            assert(rule_compiles(rules[j]));
        }
    }
}

/// An entry is refused exactly where it is not sound; one without steps as an
/// empty pipeline.
pub proof fn law_entry_checked(
    entry: DeobfuscationPipelineEntry,
    path: Seq<char>,
    place: Seq<char>,
)
    ensures
        entry_fault(entry, path, place) is None <==> entry_sound(entry),
        entry.steps@.len() == 0 ==> entry_fault(entry, path, place) == Some(
            ConfigFault::EmptyPipeline { path },
        ),
        entry.steps@.len() > 0 ==> (entry_fault(entry, path, place) matches Some(fault) ==> (
        fault matches ConfigFault::InvalidRegex { path: about, pattern, .. } && about == path
            && !regex_valid(pattern))),
{
    lemma_steps_checked(entry.steps@, path, place, 0);
    lemma_rules_checked(entry.url_extraction@, path, place, 0);
    lemma_step_fault_named(entry.steps@, path, place, 0);
    lemma_rule_fault_named(entry.url_extraction@, path, place, 0);
}

proof fn lemma_step_fault_named(
    steps: Seq<DeobfuscationStep>,
    path: Seq<char>,
    place: Seq<char>,
    j: int,
)
    requires
        0 <= j,
    ensures
        step_fault(steps, path, place, j) matches Some(fault) ==> exists|i: int|
            j <= i < steps.len() && !step_compiles(#[trigger] steps[i]) && (
            fault matches ConfigFault::InvalidRegex { path: about, context, pattern } && about
                == path && context == place + ".steps"@ + "["@ + decimal_text(i as nat) + "]"@
                && !regex_valid(pattern) && steps[i]@ == crate::provider::StepModel::RegexExtract(
                pattern,
            )),
    decreases steps.len() - j,
{
    if j < steps.len() {
        lemma_step_fault_named(steps, path, place, j + 1);
        if !step_compiles(steps[j]) {
            assert(!step_compiles(steps[j]));
        }
    }
}

proof fn lemma_rule_fault_named(
    rules: Seq<UrlExtractionRule>,
    path: Seq<char>,
    place: Seq<char>,
    j: int,
)
    requires
        0 <= j,
    ensures
        rule_fault(rules, path, place, j) matches Some(fault) ==> exists|i: int|
            j <= i < rules.len() && !rule_compiles(#[trigger] rules[i]) && (
            fault matches ConfigFault::InvalidRegex { path: about, context, pattern } && about
                == path && context == place + ".url_extraction"@ + "["@ + decimal_text(i as nat)
                + "]"@ && !regex_valid(pattern)),
    decreases rules.len() - j,
{
    if j < rules.len() {
        lemma_rule_fault_named(rules, path, place, j + 1);
        if !rule_compiles(rules[j]) {
            assert(!rule_compiles(rules[j]));
        }
    }
}

/// The fault of a step is the first one: it names the step's place and its
/// pattern.
pub proof fn law_step_fault_named(
    steps: Seq<DeobfuscationStep>,
    path: Seq<char>,
    place: Seq<char>,
    k: int,
    pattern: String,
)
    requires
        0 <= k < steps.len(),
        steps[k] == (DeobfuscationStep::RegexExtract { pattern }),
        !regex_valid(pattern@),
        forall|i: int| 0 <= i < k ==> step_compiles(#[trigger] steps[i]),
    ensures
        step_fault(steps, path, place, 0) == Some(
            ConfigFault::InvalidRegex {
                path,
                context: place + ".steps"@ + "["@ + decimal_text(k as nat) + "]"@,
                pattern: pattern@,
            },
        ),
{
    lemma_step_fault_named(steps, path, place, 0);
    lemma_steps_skipped(steps, path, place, 0, k);
}

proof fn lemma_steps_skipped(
    steps: Seq<DeobfuscationStep>,
    path: Seq<char>,
    place: Seq<char>,
    i: int,
    k: int,
)
    requires
        0 <= i <= k < steps.len(),
        forall|j: int| 0 <= j < k ==> step_compiles(#[trigger] steps[j]),
    ensures
        step_fault(steps, path, place, i) == step_fault(steps, path, place, k),
    decreases k - i,
{
    if i < k {
        assert(step_compiles(steps[i]));
        lemma_steps_skipped(steps, path, place, i + 1, k);
    }
}

/// The fault of an extraction names where it stands.
pub proof fn law_extraction_fault_named(
    extraction: ContentExtraction,
    path: Seq<char>,
    place: Seq<char>,
)
    ensures
        extraction_fault(extraction, path, place) is None <==> extraction_compiles(extraction),
        extraction_fault(extraction, path, place) matches Some(fault) ==> (
        fault matches ConfigFault::InvalidRegex { path: about, context, pattern } && about == path
            && !regex_valid(pattern) && context == place + if extraction is JsRedirectThen {
            ".extraction.redirect"@
        } else {
            ".extraction"@
        }),
{
}

proof fn lemma_domains_checked(patterns: Seq<DomainPattern>, path: Seq<char>, i: int)
    requires
        0 <= i,
    ensures
        domain_fault(patterns, path, i) is None <==> forall|j: int|
            i <= j < patterns.len() ==> pattern_usable(#[trigger] patterns[j]),
    decreases patterns.len() - i,
{
    if i < patterns.len() {
        lemma_domains_checked(patterns, path, i + 1);
        if domain_fault(patterns, path, i) is None {
            assert(pattern_usable(patterns[i]));
        }
    }
}

proof fn lemma_entries_checked(entries: Seq<DeobfuscationPipelineEntry>, path: Seq<char>, i: int)
    requires
        0 <= i,
    ensures
        pipeline_fault(entries, path, i) is None <==> forall|j: int|
            i <= j < entries.len() ==> entry_sound(#[trigger] entries[j]),
    decreases entries.len() - i,
{
    if i < entries.len() {
        law_entry_checked(entries[i], path, indexed("pipeline"@, i));
        lemma_entries_checked(entries, path, i + 1);
        if pipeline_fault(entries, path, i) is None {
            assert(entry_sound(entries[i]));
        }
    }
}

proof fn lemma_transforms_checked(transforms: Seq<UrlTransform>, path: Seq<char>, i: int)
    requires
        0 <= i,
    ensures
        transform_fault(transforms, path, i) is None <==> forall|j: int|
            i <= j < transforms.len() ==> regex_valid((#[trigger] transforms[j]).pattern@),
    decreases transforms.len() - i,
{
    if i < transforms.len() {
        lemma_transforms_checked(transforms, path, i + 1);
        if transform_fault(transforms, path, i) is None {
            assert(regex_valid(transforms[i].pattern@));
        }
    }
}

/// A configuration is accepted exactly where it is sound; a missing name is
/// reported before missing domains, and those before anything else.
pub proof fn law_config_checked(config: ProviderConfig, path: Seq<char>)
    ensures
        config_fault(config, path) is None <==> config_sound(config),
        config.name@.len() == 0 ==> config_fault(config, path) == Some(
            ConfigFault::MissingField { path, field: "name"@ },
        ),
        config.name@.len() > 0 && config.domain_patterns@.len() == 0 ==> config_fault(config, path)
            == Some(ConfigFault::MissingField { path, field: "domain_patterns"@ }),
{
    lemma_domains_checked(config.domain_patterns@, path, 0);
    lemma_entries_checked(config.deobfuscation_pipeline@, path, 0);
    lemma_transforms_checked(config.url_transforms@, path, 0);
}

/// The first domain pattern that cannot be used is reported, by its pattern.
pub proof fn law_domain_fault_named(patterns: Seq<DomainPattern>, path: Seq<char>, k: int)
    requires
        0 <= k < patterns.len(),
        !pattern_usable(patterns[k]),
        forall|j: int| 0 <= j < k ==> pattern_usable(#[trigger] patterns[j]),
    ensures
        domain_fault(patterns, path, 0) == Some(
            ConfigFault::InvalidRegex {
                path,
                context: "domain pattern"@,
                pattern: patterns[k].pattern@,
            },
        ),
{
    lemma_domains_skipped(patterns, path, 0, k);
}

proof fn lemma_domains_skipped(patterns: Seq<DomainPattern>, path: Seq<char>, i: int, k: int)
    requires
        0 <= i <= k < patterns.len(),
        forall|j: int| 0 <= j < k ==> pattern_usable(#[trigger] patterns[j]),
    ensures
        domain_fault(patterns, path, i) == domain_fault(patterns, path, k),
    decreases k - i,
{
    if i < k {
        lemma_domains_skipped(patterns, path, i + 1, k);
    }
}

/// The first transform that does not compile is reported, by place and
/// pattern.
pub proof fn law_transform_fault_named(transforms: Seq<UrlTransform>, path: Seq<char>, k: int)
    requires
        0 <= k < transforms.len(),
        !regex_valid(transforms[k].pattern@),
        forall|j: int| 0 <= j < k ==> regex_valid((#[trigger] transforms[j]).pattern@),
    ensures
        transform_fault(transforms, path, 0) == Some(
            ConfigFault::InvalidRegex {
                path,
                context: "url_transforms"@ + "["@ + decimal_text(k as nat) + "]"@,
                pattern: transforms[k].pattern@,
            },
        ),
{
    lemma_transforms_skipped(transforms, path, 0, k);
}

proof fn lemma_transforms_skipped(transforms: Seq<UrlTransform>, path: Seq<char>, i: int, k: int)
    requires
        0 <= i <= k < transforms.len(),
        forall|j: int| 0 <= j < k ==> regex_valid((#[trigger] transforms[j]).pattern@),
    ensures
        transform_fault(transforms, path, i) == transform_fault(transforms, path, k),
    decreases k - i,
{
    if i < k {
        lemma_transforms_skipped(transforms, path, i + 1, k);
    }
}

// ---------------------------------------------------------------------------
// Registry
// ---------------------------------------------------------------------------

/// An enabled provider is refused where its configuration is not sound, or
/// another id has its name; a disabled one only for the former.
pub proof fn law_registration(
    providers: Seq<(Seq<char>, ProviderConfig)>,
    dir: Seq<char>,
    path: Seq<char>,
    id: Seq<char>,
    config: ProviderConfig,
)
    ensures
        !config_sound(config) ==> refusal(providers, dir, path, id, config) == config_fault(
            config,
            path,
        ),
        config_sound(config) && !config.enabled ==> refusal(providers, dir, path, id, config)
            is None,
        config_sound(config) && config.enabled && (forall|j: int|
            0 <= j < providers.len() ==> (#[trigger] providers[j]).1.name@ != config.name@)
            ==> refusal(providers, dir, path, id, config) is None,
{
    law_config_checked(config, path);
    lemma_named_at(providers, config.name@, 0);
}

/// A taken name is reported with both files.
pub proof fn law_name_clash(
    providers: Seq<(Seq<char>, ProviderConfig)>,
    dir: Seq<char>,
    path: Seq<char>,
    id: Seq<char>,
    name: Seq<char>,
    k: int,
)
    requires
        0 <= k < providers.len(),
        providers[k].1.name@ == name,
        forall|j: int| 0 <= j < k ==> (#[trigger] providers[j]).1.name@ != name,
    ensures
        providers[k].0 == id ==> name_clash(providers, dir, path, id, name) is None,
        providers[k].0 != id ==> name_clash(providers, dir, path, id, name) == Some(
            ConfigFault::DuplicateName {
                name,
                path1: path,
                path2: dir + "/"@ + providers[k].0 + ".toml"@,
            },
        ),
{
    lemma_named_at(providers, name, 0);
    let n = named_at(providers, name, 0)->0;
    if k < n {
        assert(providers[k].1.name@ != name);
    }
    if n < k {
        assert(providers[n].1.name@ != name);
    }
}

/// Loading one more file appends an enabled provider, passes over a disabled
/// one, and ends with the first refusal.
pub proof fn law_one_more_file(dir: Seq<char>, files: Seq<ProviderFile>, n: int)
    requires
        0 < n <= files.len(),
    ensures
        loaded(dir, files, n - 1) matches Ok(before) ==> {
            let file = files[n - 1];
            &&& file.config matches Err(e) ==> loaded(dir, files, n) == Err::<
                Seq<(Seq<char>, ProviderConfig)>,
                ConfigFault,
            >(e@)
            &&& file.config matches Ok(config) ==> {
                &&& refusal(before, dir, file.path@, file.id@, config) matches Some(fault)
                    ==> loaded(dir, files, n) == Err::<
                    Seq<(Seq<char>, ProviderConfig)>,
                    ConfigFault,
                >(fault)
                &&& refusal(before, dir, file.path@, file.id@, config) is None && config.enabled
                    ==> loaded(dir, files, n) == Ok::<
                    Seq<(Seq<char>, ProviderConfig)>,
                    ConfigFault,
                >(before.push((file.id@, config)))
                &&& refusal(before, dir, file.path@, file.id@, config) is None && !config.enabled
                    ==> loaded(dir, files, n) == loaded(dir, files, n - 1)
            }
        },
        loaded(dir, files, n - 1) is Err ==> loaded(dir, files, n) == loaded(dir, files, n - 1),
        loaded(dir, files, 0) == Ok::<Seq<(Seq<char>, ProviderConfig)>, ConfigFault>(Seq::empty()),
{
}

/// A provider's id is the name of its file without `.toml`; other files have
/// none.
pub proof fn law_provider_id(id: Seq<char>, name: Seq<char>)
    ensures
        id.len() > 0 ==> id_of_file(id + ".toml"@) == Some(id),
        id_of_file(name) matches Some(found) ==> name == found + ".toml"@ && found.len() > 0,
{
    reveal_strlit(".toml");
    let file = id + ".toml"@;
    assert(file.subrange(file.len() - 5, file.len() as int) =~= ".toml"@);
    assert(file.take(file.len() - 5) =~= id);
    if name.len() > 5 && crate::text::ends_with(name, ".toml"@) {
        let found = name.take(name.len() - 5);
        assert(name =~= found + name.subrange(name.len() - 5, name.len() as int));
    }
}

/// How errors read: which file, what is wrong, and where.
pub proof fn law_config_errors_read(
    path: Seq<char>,
    a: Seq<char>,
    b: Seq<char>,
)
    ensures
        fault_text(ConfigFault::Io { path, source: a }) == "failed to read provider config "@ + path
            + ": "@ + a,
        fault_text(ConfigFault::TomlParse { path, source: a }) == "failed to parse provider config "@
            + path + ": "@ + a,
        fault_text(ConfigFault::MissingField { path, field: a }) == "provider config "@ + path
            + ": missing required field '"@ + a + "'"@,
        fault_text(ConfigFault::InvalidRegex { path, context: a, pattern: b })
            == "provider config "@ + path + ": invalid regex in "@ + a + ": "@ + b,
        fault_text(ConfigFault::InvalidStep { path, step: a, reason: b }) == "provider config "@
            + path + ": invalid deobfuscation step '"@ + a + "': "@ + b,
        fault_text(ConfigFault::DuplicateName { name: path, path1: a, path2: b })
            == "duplicate provider name '"@ + path + "' in "@ + a + " and "@ + b,
        fault_text(ConfigFault::EmptyPipeline { path }) == "provider config "@ + path
            + ": deobfuscation pipeline is empty"@,
{
}

/// The patterns of all providers are theirs one after the other.
pub proof fn law_patterns_gathered(providers: Seq<(Seq<char>, ProviderConfig)>, n: int)
    requires
        0 <= n < providers.len(),
    ensures
        patterns_of(providers, n + 1) == patterns_of(providers, n)
            + providers[n].1.domain_patterns@,
        patterns_of(providers, 0).len() == 0,
{
}

/// A check reports the fault that is there, and success where there is none.
pub proof fn law_reported_fault(r: Result<(), ProviderConfigError>, fault: Option<ConfigFault>)
    requires
        reports(r, fault),
    ensures
        r is Ok <==> fault is None,
        r matches Err(e) ==> fault == Some(e@),
{
}

} // verus!
