//! URL resolution: results and errors, and the decisions from a submitted URL
//! to a result.

use crate::cache::{inserted, now_epoch_secs, served, ResolveCache, RowModel};
use crate::classifier::{category_of, classify_url, UrlCategory};
use crate::custom::{doodstream_domains, is_doodstream_domain, is_voe, is_voe_domain};
use crate::links::{parse_url, url_parse, UrlModel};
use crate::ytdlp::{isolated_proxy, isolated_proxy_url};
use crate::text::{
    after_last, ascii_lower, ascii_upper, before_first, char_index, in_domains, join2,
    lemma_ascii_upper_lowered, lemma_char_index, lemma_cut_ignores_case, lower, opt_text, owned,
    same_text, str_after_last, str_before_first, texts, to_lowercase,
};
use vstd::prelude::*;

verus! {

/// Errors produced during URL resolution.
#[derive(Debug, Clone)]
pub enum ResolveError {
    /// The URL could not be parsed.
    InvalidUrl(String),
    /// No playable media was found at the given address.
    NoMediaFound(String),
    /// A network request failed.
    Network(String),
    /// The Tor proxy was required but not available.
    TorUnavailable(String),
}

/// Mathematical counterpart of [`ResolveError`].
pub enum ResolveFault {
    InvalidUrl(Seq<char>),
    NoMediaFound(Seq<char>),
    Network(Seq<char>),
    TorUnavailable(Seq<char>),
}

impl View for ResolveError {
    type V = ResolveFault;

    open spec fn view(&self) -> ResolveFault {
        match self {
            ResolveError::InvalidUrl(t) => ResolveFault::InvalidUrl(t@),
            ResolveError::NoMediaFound(t) => ResolveFault::NoMediaFound(t@),
            ResolveError::Network(t) => ResolveFault::Network(t@),
            ResolveError::TorUnavailable(t) => ResolveFault::TorUnavailable(t@),
        }
    }
}

/// How an error reads.
pub open spec fn resolve_fault_text(fault: ResolveFault) -> Seq<char> {
    match fault {
        ResolveFault::InvalidUrl(t) => "invalid URL: "@ + t,
        ResolveFault::NoMediaFound(t) => "no media found at "@ + t,
        ResolveFault::Network(t) => "network error: "@ + t,
        ResolveFault::TorUnavailable(t) => "Tor proxy unavailable: "@ + t,
    }
}

impl ResolveError {
    /// How the error reads.
    pub fn message(&self) -> (r: String)
        ensures
            r@ == resolve_fault_text(self@),
    {
        match self {
            ResolveError::InvalidUrl(t) => join2("invalid URL: ", t.as_str()),
            ResolveError::NoMediaFound(t) => join2("no media found at ", t.as_str()),
            ResolveError::Network(t) => join2("network error: ", t.as_str()),
            ResolveError::TorUnavailable(t) => join2("Tor proxy unavailable: ", t.as_str()),
        }
    }
}

/// The outcome of a successful URL resolution.
#[derive(Debug, Clone)]
pub struct ResolveResult {
    /// The original URL the user submitted.
    pub source_url: String,
    /// The resolved direct media URL ready for playback.
    pub direct_url: String,
    /// Separate audio stream URL, where video and audio are split.
    pub audio_url: Option<String>,
    /// Classification of the resolved URL.
    pub category: UrlCategory,
    /// MIME type of the media, if known.
    pub mime_type: Option<String>,
    /// Estimated content length in bytes, if the server reported it.
    pub content_length: Option<u64>,
    /// Whether the resolution went through the Tor network.
    pub used_tor: bool,
    /// Media title.
    pub title: Option<String>,
    /// Duration in milliseconds, if known.
    pub duration: Option<u64>,
    /// Thumbnail URL, if available.
    pub thumbnail: Option<String>,
    /// Video codec identifier.
    pub vcodec: Option<String>,
    /// Audio codec identifier.
    pub acodec: Option<String>,
    /// Video width in pixels.
    pub width: Option<u32>,
    /// Video height in pixels.
    pub height: Option<u32>,
    /// Available subtitle track language codes.
    pub subtitle_tracks: Vec<String>,
    /// Session cookies of the page, to be sent with the download.
    pub cookies: Vec<String>,
    /// Which kind of resolver produced the result; empty where none did.
    pub resolver_type: String,
}

/// Mathematical counterpart of [`ResolveResult`].
pub struct ResolveModel {
    pub source_url: Seq<char>,
    pub direct_url: Seq<char>,
    pub audio_url: Option<Seq<char>>,
    pub category: UrlCategory,
    pub mime_type: Option<Seq<char>>,
    pub content_length: Option<u64>,
    pub used_tor: bool,
    pub title: Option<Seq<char>>,
    pub duration: Option<u64>,
    pub thumbnail: Option<Seq<char>>,
    pub vcodec: Option<Seq<char>>,
    pub acodec: Option<Seq<char>>,
    pub width: Option<u32>,
    pub height: Option<u32>,
    pub subtitle_tracks: Seq<Seq<char>>,
    pub cookies: Seq<Seq<char>>,
    pub resolver_type: Seq<char>,
}

impl View for ResolveResult {
    type V = ResolveModel;

    open spec fn view(&self) -> ResolveModel {
        ResolveModel {
            source_url: self.source_url@,
            direct_url: self.direct_url@,
            audio_url: opt_text(self.audio_url),
            category: self.category,
            mime_type: opt_text(self.mime_type),
            content_length: self.content_length,
            used_tor: self.used_tor,
            title: opt_text(self.title),
            duration: self.duration,
            thumbnail: opt_text(self.thumbnail),
            vcodec: opt_text(self.vcodec),
            acodec: opt_text(self.acodec),
            width: self.width,
            height: self.height,
            subtitle_tracks: texts(self.subtitle_tracks@),
            cookies: texts(self.cookies@),
            resolver_type: self.resolver_type@,
        }
    }
}

/// A result that hands a URL through, with nothing else known.
pub open spec fn passed_through(
    url: Seq<char>,
    category: UrlCategory,
    mime_type: Option<Seq<char>>,
) -> ResolveModel {
    ResolveModel {
        source_url: url,
        direct_url: url,
        audio_url: None,
        category,
        mime_type,
        content_length: None,
        used_tor: false,
        title: None,
        duration: None,
        thumbnail: None,
        vcodec: None,
        acodec: None,
        width: None,
        height: None,
        subtitle_tracks: Seq::empty(),
        cookies: Seq::empty(),
        resolver_type: Seq::empty(),
    }
}

/// A result that hands a URL through, with nothing else known.
pub fn pass_through(url: &str, category: UrlCategory, mime_type: Option<String>) -> (r:
    ResolveResult)
    ensures
        r@ == passed_through(url@, category, opt_text(mime_type)),
{
    let r = ResolveResult {
        source_url: owned(url),
        direct_url: owned(url),
        audio_url: None,
        category,
        mime_type,
        content_length: None,
        used_tor: false,
        title: None,
        duration: None,
        thumbnail: None,
        vcodec: None,
        acodec: None,
        width: None,
        height: None,
        subtitle_tracks: Vec::new(),
        cookies: Vec::new(),
        resolver_type: String::new(),
    };
    assert(r@.subtitle_tracks =~= Seq::empty());
    assert(r@.cookies =~= Seq::empty());
    r
}

/// The MIME type that a lowercase file extension stands for.
pub open spec fn mime_of_extension(ext: Seq<char>) -> Option<Seq<char>> {
    if ext == "mp4"@ {
        Some("video/mp4"@)
    } else if ext == "webm"@ {
        Some("video/webm"@)
    } else if ext == "mkv"@ {
        Some("video/x-matroska"@)
    } else if ext == "avi"@ {
        Some("video/x-msvideo"@)
    } else if ext == "mov"@ {
        Some("video/quicktime"@)
    } else if ext == "mp3"@ {
        Some("audio/mpeg"@)
    } else if ext == "flac"@ {
        Some("audio/flac"@)
    } else if ext == "ogg"@ {
        Some("audio/ogg"@)
    } else if ext == "m4a"@ {
        Some("audio/mp4"@)
    } else if ext == "ts"@ {
        Some("video/mp2t"@)
    } else if ext == "m4s"@ {
        Some("video/iso.segment"@)
    } else {
        None
    }
}

/// The MIME type that the extension of a path stands for, query left out.
pub open spec fn mime_of_path(path: Seq<char>) -> Option<Seq<char>> {
    mime_of_extension(after_last(lower(before_first(path, '?')), '.'))
}

/// Map a file path or URL to a MIME type based on its extension. The case of
/// ASCII letters makes no difference.
pub fn mime_from_extension(path: &str) -> (r: Option<String>)
    ensures
        opt_text(r) == mime_of_path(path@),
        forall|other: Seq<char>|
            ascii_lower(other) == ascii_lower(path@) ==> #[trigger] mime_of_path(other)
                == opt_text(r),
        mime_of_path(ascii_upper(path@)) == opt_text(r),
{
    let bare = str_before_first(path, '?');
    let bare_lower = to_lowercase(bare.as_str());
    proof {
        assert forall|other: Seq<char>| ascii_lower(other) == ascii_lower(path@) implies
            #[trigger] mime_of_path(other) == mime_of_path(path@) by {
            lemma_cut_ignores_case(other, path@, '?');
            assert(lower(before_first(other, '?')) == bare_lower@);
        }
        lemma_ascii_upper_lowered(path@);
    }
    let ext = str_after_last(bare_lower.as_str(), '.');
    let e = ext.as_str();
    if same_text(e, "mp4") {
        Some(owned("video/mp4"))
    } else if same_text(e, "webm") {
        Some(owned("video/webm"))
    } else if same_text(e, "mkv") {
        Some(owned("video/x-matroska"))
    } else if same_text(e, "avi") {
        Some(owned("video/x-msvideo"))
    } else if same_text(e, "mov") {
        Some(owned("video/quicktime"))
    } else if same_text(e, "mp3") {
        Some(owned("audio/mpeg"))
    } else if same_text(e, "flac") {
        Some(owned("audio/flac"))
    } else if same_text(e, "ogg") {
        Some(owned("audio/ogg"))
    } else if same_text(e, "m4a") {
        Some(owned("audio/mp4"))
    } else if same_text(e, "ts") {
        Some(owned("video/mp2t"))
    } else if same_text(e, "m4s") {
        Some(owned("video/iso.segment"))
    } else {
        None
    }
}

// ---------------------------------------------------------------------------
// Decisions
// ---------------------------------------------------------------------------

/// How a page is to be resolved.
#[derive(Debug)]
pub enum Route {
    /// By the Voe resolver; the host isolates its circuit.
    Voe { host: String },
    /// By the DoodStream resolver; the host isolates its circuit.
    DoodStream { host: String },
    /// By yt-dlp; the key isolates its circuit.
    Ytdlp { key: String, onion: bool },
}

/// Mathematical counterpart of [`Route`].
pub enum RouteModel {
    Voe { host: Seq<char> },
    DoodStream { host: Seq<char> },
    Ytdlp { key: Seq<char>, onion: bool },
}

impl View for Route {
    type V = RouteModel;

    open spec fn view(&self) -> RouteModel {
        match self {
            Route::Voe { host } => RouteModel::Voe { host: host@ },
            Route::DoodStream { host } => RouteModel::DoodStream { host: host@ },
            Route::Ytdlp { key, onion } => RouteModel::Ytdlp { key: key@, onion: *onion },
        }
    }
}

/// What to do with a submitted URL.
#[derive(Debug)]
pub enum ResolveStep {
    /// Nothing is left to do: the cache has the answer.
    Cached(ResolveResult),
    /// Nothing is left to do: the URL itself is the answer, which the cache has
    /// taken in.
    Done(ResolveResult),
    /// Fetch along a route and go on with [`Resolver::complete`].
    Fetch(Route),
}

/// What a URL comes to when nothing is cached for it.
pub enum Verdict {
    Direct(ResolveModel),
    Fetch(RouteModel),
    Refused(ResolveFault),
}

/// The host of a URL, with a stand-in where it has none.
pub open spec fn host_or(url: UrlModel, other: Seq<char>) -> Seq<char> {
    match url.host {
        Some(host) => host,
        None => other,
    }
}

/// How a page is to be resolved: by the resolver for its host, else by yt-dlp.
pub open spec fn page_route(url: UrlModel) -> RouteModel {
    if url.host is Some && is_voe(url.host->0) {
        RouteModel::Voe { host: url.host->0 }
    } else if url.host is Some && in_domains(lower(url.host->0), doodstream_domains()) {
        RouteModel::DoodStream { host: url.host->0 }
    } else {
        RouteModel::Ytdlp { key: host_or(url, "unknown"@), onion: false }
    }
}

/// What a URL comes to by its category: media and manifests are handed
/// through, pages and onion addresses are fetched, magnets are refused.
pub open spec fn verdict(text: Seq<char>, url: UrlModel) -> Verdict {
    match category_of(url) {
        UrlCategory::DirectMedia => Verdict::Direct(
            passed_through(text, UrlCategory::DirectMedia, mime_of_path(text)),
        ),
        UrlCategory::HlsManifest => Verdict::Direct(
            passed_through(
                text,
                UrlCategory::HlsManifest,
                Some("application/vnd.apple.mpegurl"@),
            ),
        ),
        UrlCategory::DashManifest => Verdict::Direct(
            passed_through(text, UrlCategory::DashManifest, Some("application/dash+xml"@)),
        ),
        UrlCategory::WebPage => Verdict::Fetch(page_route(url)),
        UrlCategory::Onion => Verdict::Fetch(
            RouteModel::Ytdlp { key: host_or(url, "onion-unknown"@), onion: true },
        ),
        UrlCategory::Magnet => Verdict::Refused(ResolveFault::NoMediaFound(text)),
    }
}

/// A fetched result, as it is reported: under the category of the submitted
/// URL, and through Tor where that was an onion address.
pub open spec fn reported(route: RouteModel, fetched: ResolveModel) -> ResolveModel {
    match route {
        RouteModel::Ytdlp { onion: true, .. } => ResolveModel {
            category: UrlCategory::Onion,
            used_tor: true,
            ..fetched
        },
        _ => ResolveModel { category: UrlCategory::WebPage, ..fetched },
    }
}

/// The proxy for a custom resolver: none where no address is configured.
pub fn page_proxy(isolation_username: &str, socks_addr: &str) -> (r: Option<String>)
    ensures
        opt_text(r) == if socks_addr@.len() > 0 {
            Some(isolated_proxy(isolation_username@, socks_addr@))
        } else {
            None
        },
{
    if socks_addr.is_empty() {
        None
    } else {
        Some(isolated_proxy_url(isolation_username, socks_addr))
    }
}

/// The resolver: its cache of results, and what it decides about URLs.
#[derive(Debug)]
pub struct Resolver {
    /// Cache of resolved URLs.
    pub cache: ResolveCache,
}

/// What resolving a URL decides first, and what it does to the cache.
pub open spec fn begun(
    r: Result<ResolveStep, ResolveError>,
    before: ResolveCache,
    after: Seq<RowModel>,
    url: Seq<char>,
    now: i64,
) -> bool {
    match url_parse(url) {
        Err(message) => {
            &&& r matches Err(e) && e@ == ResolveFault::InvalidUrl(message)
            &&& after == before@
        },
        Ok(parts) => match served(before@, url, before.cutoff(now)) {
            Some(hit) => {
                &&& r matches Ok(ResolveStep::Cached(result)) && result@ == hit
                &&& after == before@
            },
            None => match verdict(url, parts) {
                Verdict::Direct(model) => {
                    &&& r matches Ok(ResolveStep::Done(result)) && result@ == model
                    &&& after == inserted(before@, model, now)
                },
                Verdict::Fetch(route) => {
                    &&& r matches Ok(ResolveStep::Fetch(chosen)) && chosen@ == route
                    &&& after == before@
                },
                Verdict::Refused(fault) => {
                    &&& r matches Err(e) && e@ == fault
                    &&& after == before@
                },
            },
        },
    }
}

/// What resolving a direct link comes to, and what it does to the cache.
pub open spec fn directly_resolved(
    r: Result<ResolveResult, ResolveError>,
    before: ResolveCache,
    after: Seq<RowModel>,
    url: Seq<char>,
    now: i64,
) -> bool {
    match url_parse(url) {
        Err(message) => {
            &&& r matches Err(e) && e@ == ResolveFault::InvalidUrl(message)
            &&& after == before@
        },
        Ok(parts) => if category_of(parts) != UrlCategory::DirectMedia {
            &&& r matches Err(e) && e@ == ResolveFault::NoMediaFound(url)
            &&& after == before@
        } else {
            match served(before@, url, before.cutoff(now)) {
                Some(hit) => {
                    &&& r matches Ok(result) && result@ == hit
                    &&& after == before@
                },
                None => {
                    let model = passed_through(url, UrlCategory::DirectMedia, mime_of_path(url));
                    &&& r matches Ok(result) && result@ == model
                    &&& after == inserted(before@, model, now)
                },
            }
        },
    }
}

impl Resolver {
    /// Create a resolver with the default cache.
    pub fn new() -> (r: Self)
        ensures
            r.cache@ == Seq::<RowModel>::empty(),
            r.cache.ttl() == crate::cache::DEFAULT_TTL_SECS,
            r.cache.well_formed(),
    {
        Resolver { cache: ResolveCache::new() }
    }

    /// Create a resolver with a custom cache TTL in seconds.
    pub fn with_cache_ttl(ttl_secs: u64) -> (r: Self)
        ensures
            r.cache@ == Seq::<RowModel>::empty(),
            r.cache.ttl() == ttl_secs,
            r.cache.well_formed(),
    {
        Resolver { cache: ResolveCache::with_ttl(ttl_secs) }
    }

    /// Classify a URL without performing any resolution.
    pub fn classify(&self, url: &str) -> (r: Result<UrlCategory, ResolveError>)
        ensures
            match url_parse(url@) {
                Ok(parts) => r == Ok::<UrlCategory, ResolveError>(category_of(parts)),
                Err(message) => r matches Err(e) && e@ == ResolveFault::InvalidUrl(message),
            },
    {
        match parse_url(url) {
            Ok(parts) => Ok(classify_url(&parts)),
            Err(message) => Err(ResolveError::InvalidUrl(message)),
        }
    }

    /// Begins to resolve a URL at a given time: answers from the cache or from
    /// the URL itself where that is enough, else tells the route to take.
    pub fn begin_at(&mut self, url: &str, now: i64) -> (r: Result<ResolveStep, ResolveError>)
        requires
            old(self).cache.well_formed(),
        ensures
            begun(r, old(self).cache, final(self).cache@, url@, now),
            final(self).cache.ttl() == old(self).cache.ttl(),
            final(self).cache.well_formed(),
    {
        let parts = match parse_url(url) {
            Ok(parts) => parts,
            Err(message) => {
                return Err(ResolveError::InvalidUrl(message));
            },
        };
        match self.cache.get_at(url, now) {
            Some(hit) => {
                return Ok(ResolveStep::Cached(hit));
            },
            None => {},
        }
        let category = classify_url(&parts);
        let result = match category {
            UrlCategory::DirectMedia => pass_through(url, category, mime_from_extension(url)),
            UrlCategory::HlsManifest => pass_through(
                url,
                category,
                Some(owned("application/vnd.apple.mpegurl")),
            ),
            UrlCategory::DashManifest => pass_through(
                url,
                category,
                Some(owned("application/dash+xml")),
            ),
            UrlCategory::Onion => {
                let key = match parts.host {
                    Some(host) => host,
                    None => owned("onion-unknown"),
                };
                return Ok(ResolveStep::Fetch(Route::Ytdlp { key, onion: true }));
            },
            UrlCategory::WebPage => {
                return Ok(ResolveStep::Fetch(choose_page_route(parts.host)));
            },
            UrlCategory::Magnet => {
                return Err(ResolveError::NoMediaFound(owned(url)));
            },
        };
        self.cache.insert_at(&result, now);
        Ok(ResolveStep::Done(result))
    }

    /// Begins to resolve a URL at the current time.
    pub fn begin(&mut self, url: &str) -> (r: Result<ResolveStep, ResolveError>)
        requires
            old(self).cache.well_formed(),
        ensures
            exists|now: i64| #[trigger]
                begun(r, old(self).cache, final(self).cache@, url@, now),
            final(self).cache.ttl() == old(self).cache.ttl(),
            final(self).cache.well_formed(),
    {
        let now: i64 = now_epoch_secs();
        self.begin_at(url, now)
    }

    /// Takes in what a route gave at a given time: reports and caches a result,
    /// passes an error on.
    pub fn complete_at(
        &mut self,
        route: &Route,
        fetched: Result<ResolveResult, ResolveError>,
        now: i64,
    ) -> (r: Result<ResolveResult, ResolveError>)
        requires
            old(self).cache.well_formed(),
        ensures
            match fetched {
                Ok(found) => {
                    &&& r matches Ok(result) && result@ == reported(route@, found@)
                    &&& final(self).cache@ == inserted(
                        old(self).cache@,
                        reported(route@, found@),
                        now,
                    )
                },
                Err(cause) => r == Err::<ResolveResult, ResolveError>(cause) && final(self).cache@
                    == old(self).cache@,
            },
            final(self).cache.ttl() == old(self).cache.ttl(),
            final(self).cache.well_formed(),
    {
        match fetched {
            Ok(found) => {
                let mut result = found;
                match route {
                    Route::Ytdlp { onion, .. } => {
                        if *onion {
                            result.category = UrlCategory::Onion;
                            result.used_tor = true;
                        } else {
                            result.category = UrlCategory::WebPage;
                        }
                    },
                    _ => {
                        result.category = UrlCategory::WebPage;
                    },
                }
                self.cache.insert_at(&result, now);
                Ok(result)
            },
            Err(cause) => Err(cause),
        }
    }

    /// Takes in what a route gave at the current time.
    pub fn complete(&mut self, route: &Route, fetched: Result<ResolveResult, ResolveError>) -> (r:
        Result<ResolveResult, ResolveError>)
        requires
            old(self).cache.well_formed(),
        ensures
            match fetched {
                Ok(found) => {
                    &&& r matches Ok(result) && result@ == reported(route@, found@)
                    &&& exists|now: i64|
                        final(self).cache@ == #[trigger] inserted(
                            old(self).cache@,
                            reported(route@, found@),
                            now,
                        )
                },
                Err(cause) => r == Err::<ResolveResult, ResolveError>(cause) && final(self).cache@
                    == old(self).cache@,
            },
            final(self).cache.ttl() == old(self).cache.ttl(),
            final(self).cache.well_formed(),
    {
        let now: i64 = now_epoch_secs();
        self.complete_at(route, fetched, now)
    }

    /// Resolves a direct media link at a given time; other URLs are refused.
    pub fn resolve_direct_at(&mut self, url: &str, now: i64) -> (r: Result<
        ResolveResult,
        ResolveError,
    >)
        requires
            old(self).cache.well_formed(),
        ensures
            directly_resolved(r, old(self).cache, final(self).cache@, url@, now),
            final(self).cache.ttl() == old(self).cache.ttl(),
            final(self).cache.well_formed(),
    {
        let parts = match parse_url(url) {
            Ok(parts) => parts,
            Err(message) => {
                return Err(ResolveError::InvalidUrl(message));
            },
        };
        let category = classify_url(&parts);
        if category != UrlCategory::DirectMedia {
            return Err(ResolveError::NoMediaFound(owned(url)));
        }
        match self.cache.get_at(url, now) {
            Some(hit) => {
                return Ok(hit);
            },
            None => {},
        }
        let result = pass_through(url, category, mime_from_extension(url));
        self.cache.insert_at(&result, now);
        Ok(result)
    }

    /// Resolves a direct media link at the current time.
    pub fn resolve_direct(&mut self, url: &str) -> (r: Result<ResolveResult, ResolveError>)
        requires
            old(self).cache.well_formed(),
        ensures
            exists|now: i64| #[trigger]
                directly_resolved(r, old(self).cache, final(self).cache@, url@, now),
            final(self).cache.ttl() == old(self).cache.ttl(),
            final(self).cache.well_formed(),
    {
        let now: i64 = now_epoch_secs();
        self.resolve_direct_at(url, now)
    }

    /// Forgets what is cached for a URL.
    pub fn invalidate_cache(&mut self, url: &str)
        requires
            old(self).cache.well_formed(),
        ensures
            final(self).cache@ == crate::cache::without_url(old(self).cache@, url@),
            final(self).cache.ttl() == old(self).cache.ttl(),
            final(self).cache.well_formed(),
    {
        self.cache.delete(url);
    }
}

fn choose_page_route(host: Option<String>) -> (r: Route)
    ensures
        forall|url: UrlModel|
            url.host == opt_text(host) ==> r@ == #[trigger] page_route(url),
{
    match host {
        Some(host) => {
            if is_voe_domain(host.as_str()) {
                Route::Voe { host }
            } else if is_doodstream_domain(host.as_str()) {
                Route::DoodStream { host }
            } else {
                Route::Ytdlp { key: host, onion: false }
            }
        },
        None => Route::Ytdlp { key: owned("unknown"), onion: false },
    }
}

// ---------------------------------------------------------------------------
// Laws
// ---------------------------------------------------------------------------

/// What follows a question mark does not change the MIME type of a path.
pub proof fn lemma_mime_ignores_query(path: Seq<char>, query: Seq<char>)
    ensures
        mime_of_path(path + "?"@ + query) == mime_of_path(path),
{
    let full = path + "?"@ + query;
    reveal_strlit("?");
    assert(full[path.len() as int] == '?');
    lemma_char_index(path, '?', 0);
    lemma_char_index(full, '?', 0);
    let k = char_index(path, '?', 0);
    assert(forall|j: int| 0 <= j < path.len() ==> full[j] == path[j]);
    assert(char_index(full, '?', 0) == k);
    assert(full.take(k) =~= path.take(k));
}

/// Whatever is fetched from an onion address is reported as such, through Tor.
pub proof fn lemma_onion_uses_tor(text: Seq<char>, url: UrlModel, fetched: ResolveModel)
    requires
        category_of(url) == UrlCategory::Onion,
    ensures
        verdict(text, url) is Fetch,
        reported(verdict(text, url)->Fetch_0, fetched).category == UrlCategory::Onion,
        reported(verdict(text, url)->Fetch_0, fetched).used_tor,
{
}

/// Media and manifests are handed through as they are, without Tor.
pub proof fn lemma_direct_untouched(text: Seq<char>, url: UrlModel)
    requires
        category_of(url) == UrlCategory::DirectMedia || category_of(url) == UrlCategory::HlsManifest
            || category_of(url) == UrlCategory::DashManifest,
    ensures
        verdict(text, url) matches Verdict::Direct(model) && model.direct_url == text
            && model.source_url == text && !model.used_tor && model.category == category_of(url),
{
}

/// A magnet link is refused, and named in the refusal.
pub proof fn lemma_magnet_refused(text: Seq<char>, url: UrlModel)
    requires
        category_of(url) == UrlCategory::Magnet,
    ensures
        verdict(text, url) == Verdict::Refused(ResolveFault::NoMediaFound(text)),
{
}

/// Once a direct link was resolved, further requests for it are answered from
/// the cache until its TTL has passed.
pub proof fn lemma_second_request_hits(
    rows: Seq<RowModel>,
    text: Seq<char>,
    url: UrlModel,
    now: i64,
    cutoff: i64,
)
    requires
        crate::cache::urls_unique(rows),
        verdict(text, url) is Direct,
        now - crate::cache::CLEANUP_AGE_SECS >= i64::MIN,
        now > cutoff,
    ensures
        ({
            let model = verdict(text, url)->Direct_0;
            served(inserted(rows, model, now), text, cutoff) == Some(
                crate::cache::result_of(crate::cache::row_of(model, now)),
            )
        }),
{
    let model = verdict(text, url)->Direct_0;
    crate::cache::lemma_inserted_is_served(rows, model, now, cutoff);
}

/// Once what a route gave for a submitted URL was taken in, further requests
/// for that URL are answered from the cache until its TTL has passed.
pub proof fn lemma_fetched_is_served(
    rows: Seq<RowModel>,
    text: Seq<char>,
    route: RouteModel,
    found: ResolveModel,
    now: i64,
    cutoff: i64,
)
    requires
        crate::cache::urls_unique(rows),
        found.source_url == text,
        now - crate::cache::CLEANUP_AGE_SECS >= i64::MIN,
        now > cutoff,
    ensures
        served(inserted(rows, reported(route, found), now), text, cutoff) == Some(
            crate::cache::result_of(crate::cache::row_of(reported(route, found), now)),
        ),
{
    crate::cache::lemma_inserted_is_served(rows, reported(route, found), now, cutoff);
}

} // verus!
