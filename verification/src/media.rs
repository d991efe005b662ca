//! Finding and rating media links: CDN rate limits, decoys, links in free
//! text, page metadata, and the result that a built-in resolver reports.

use crate::classifier::UrlCategory;
use crate::deobfuscation::{
    best_ranked, best_ranked_link, first_present, first_present_value, is_bait, is_bait_source,
    is_hls, is_hls_url, lemma_quality_links, lemma_quality_links_hold, quality_links, quality_rank,
    rank_of_quality,
};
use crate::json::{Json, Tree};
use crate::markup::{element_attributes, element_texts, select_attributes, select_texts};
use crate::patterns::{
    capture_every, capture_first, every_capture, first_capture, opt_texts, pattern_compiles,
    regex_valid,
};
use crate::resolver::{ResolveModel, ResolveResult};
use crate::text::{
    before_first, char_index, chars_of, clone_opt, contains, find, find_chars, index_of_char,
    opt_text, owned, parse_number, parse_unsigned, push_text, same_text, str_before_first,
    str_contains, str_strip_prefix, str_trim, strip_prefix, substring, text_pairs, texts, trim,
};
use vstd::prelude::*;

verus! {

// ---------------------------------------------------------------------------
// CDN rate limits
// ---------------------------------------------------------------------------

/// The number behind the first `prefix`, up to the next `&`.
pub open spec fn number_after(url: Seq<char>, prefix: Seq<char>) -> Option<nat> {
    match find(url, prefix) {
        Some(k) => parse_unsigned(
            before_first(url.skip(k + prefix.len()), '&'),
            u64::MAX as nat,
        ),
        None => None,
    }
}

/// The speed limit in kbps that the `sp` parameter of a link states.
pub open spec fn cdn_speed(url: Seq<char>) -> Option<nat> {
    match number_after(url, "&sp="@) {
        Some(n) => Some(n),
        None => number_after(url, "?sp="@),
    }
}

/// An optional machine number as a natural number.
pub open spec fn opt_nat(n: Option<u64>) -> Option<nat> {
    match n {
        Some(v) => Some(v as nat),
        None => None,
    }
}

/// Bitrate in kbps that a quality level typically needs.
pub open spec fn typical_bitrate(quality: Seq<char>) -> Option<u64> {
    if quality == "240"@ {
        Some(400)
    } else if quality == "360"@ {
        Some(800)
    } else if quality == "480"@ {
        Some(1500)
    } else if quality == "720"@ {
        Some(3000)
    } else if quality == "1080"@ {
        Some(6000)
    } else {
        None
    }
}

/// Whether the CDN serves a link as fast as its quality level needs. Without a
/// limit, or for an unknown level, it does.
pub open spec fn sustainable(link: (Seq<char>, Seq<char>)) -> bool {
    match (cdn_speed(link.1), typical_bitrate(link.0)) {
        (Some(speed), Some(bitrate)) => speed >= bitrate,
        _ => true,
    }
}

/// The index, below `n`, of the first sustainable link with the best rank.
pub open spec fn best_sustained(links: Seq<(Seq<char>, Seq<char>)>, n: int) -> Option<int>
    decreases n,
{
    if n <= 0 {
        None
    } else {
        let before = best_sustained(links, n - 1);
        if sustainable(links[n - 1]) && (before is None || quality_rank(links[n - 1].0)
            < quality_rank(links[before->0].0)) {
            Some(n - 1)
        } else {
            before
        }
    }
}

/// The speed limit of a link, zero where it states none.
pub open spec fn speed_or_zero(url: Seq<char>) -> nat {
    match cdn_speed(url) {
        Some(n) => n,
        None => 0,
    }
}

/// The index, below `n`, of the first link with the highest speed limit, ties
/// going to the better rank.
pub open spec fn fastest(links: Seq<(Seq<char>, Seq<char>)>, n: int) -> int
    decreases n,
{
    if n <= 1 {
        0
    } else {
        let before = fastest(links, n - 1);
        let new = links[n - 1];
        let old_best = links[before];
        if speed_or_zero(new.1) > speed_or_zero(old_best.1) || (speed_or_zero(new.1)
            == speed_or_zero(old_best.1) && quality_rank(new.0) < quality_rank(old_best.0)) {
            n - 1
        } else {
            before
        }
    }
}

/// The index of the link to play among several quality levels.
pub open spec fn chosen_level(links: Seq<(Seq<char>, Seq<char>)>) -> int {
    match best_sustained(links, links.len() as int) {
        Some(k) => k,
        None => fastest(links, links.len() as int),
    }
}

/// The media link that a JSON value holds: a string, or the best of its
/// quality levels, MP4 before HLS.
pub open spec fn media_link(value: Tree) -> Option<Seq<char>> {
    match value {
        Tree::Text(url) => if url.len() > 0 {
            Some(url)
        } else {
            None
        },
        Tree::Object(fields) => {
            let n = fields.len() as int;
            let mp4 = quality_links(fields, n, false, Seq::empty(), Seq::empty());
            let hls = quality_links(fields, n, true, Seq::empty(), Seq::empty());
            if mp4.len() > 0 {
                Some(mp4[chosen_level(mp4)].1)
            } else if hls.len() > 0 {
                Some(hls[best_ranked(hls, hls.len() as int)].1)
            } else {
                None
            }
        },
        _ => None,
    }
}

fn read_number_after(url: &str, prefix: &str) -> (r: Option<u64>)
    ensures
        opt_nat(r) == number_after(url@, prefix@),
{
    let v = chars_of(url);
    let w = chars_of(prefix);
    let total: usize = v.len();
    match find_chars(&v, &w, 0) {
        Some(k) => {
            let after = substring(&v, k + w.len(), total);
            assert(after@ =~= url@.skip(k + prefix@.len()));
            let value = str_before_first(after.as_str(), '&');
            parse_number(value.as_str(), u64::MAX)
        },
        None => None,
    }
}

/// Extract the CDN speed limit (`sp=`) from a URL's query string.
pub fn extract_cdn_speed_param(url: &str) -> (r: Option<u64>)
    ensures
        opt_nat(r) == cdn_speed(url@),
{
    match read_number_after(url, "&sp=") {
        Some(n) => Some(n),
        None => read_number_after(url, "?sp="),
    }
}

/// Typical video bitrates by quality level, in kbps.
pub fn typical_bitrate_kbps(quality: &str) -> (r: Option<u64>)
    ensures
        r == typical_bitrate(quality@),
{
    if same_text(quality, "240") {
        Some(400)
    } else if same_text(quality, "360") {
        Some(800)
    } else if same_text(quality, "480") {
        Some(1500)
    } else if same_text(quality, "720") {
        Some(3000)
    } else if same_text(quality, "1080") {
        Some(6000)
    } else {
        None
    }
}

/// Whether the CDN serves a link as fast as its quality level needs.
pub fn is_sustainable(quality: &str, url: &str) -> (r: bool)
    ensures
        r == sustainable((quality@, url@)),
{
    match (extract_cdn_speed_param(url), typical_bitrate_kbps(quality)) {
        (Some(speed), Some(bitrate)) => speed >= bitrate,
        _ => true,
    }
}

/// The index of the link to play among several quality levels.
pub fn choose_level(links: &Vec<(String, String)>) -> (r: usize)
    requires
        links@.len() > 0,
    ensures
        r == chosen_level(text_pairs(links@)),
        r < links@.len(),
{
    let ghost all = text_pairs(links@);
    let mut best: Option<usize> = None;
    let mut i: usize = 0;
    while i < links.len()
        invariant
            i <= links@.len(),
            all == text_pairs(links@),
            match best {
                Some(k) => k < i && best_sustained(all, i as int) == Some(k as int),
                None => best_sustained(all, i as int) is None,
            },
        decreases links.len() - i,
    {
        assert(all[i as int] == (links@[i as int].0@, links@[i as int].1@));
        if is_sustainable(links[i].0.as_str(), links[i].1.as_str()) {
            let better: bool = match best {
                Some(k) => {
                    assert(all[k as int].0 == links@[k as int].0@);
                    rank_of_quality(links[i].0.as_str()) < rank_of_quality(links[k].0.as_str())
                },
                None => true,
            };
            if better {
                best = Some(i);
            }
        }
        i = i + 1;
    }
    match best {
        Some(k) => k,
        None => fastest_level(links),
    }
}

fn speed_of(url: &str) -> (r: u64)
    ensures
        r == speed_or_zero(url@),
{
    match extract_cdn_speed_param(url) {
        Some(n) => n,
        None => 0,
    }
}

fn fastest_level(links: &Vec<(String, String)>) -> (r: usize)
    requires
        links@.len() > 0,
    ensures
        r == fastest(text_pairs(links@), links@.len() as int),
        r < links@.len(),
{
    let ghost all = text_pairs(links@);
    let mut best: usize = 0;
    let mut i: usize = 1;
    while i < links.len()
        invariant
            1 <= i <= links@.len(),
            best < i,
            all == text_pairs(links@),
            best == fastest(all, i as int),
        decreases links.len() - i,
    {
        assert(all[i as int] == (links@[i as int].0@, links@[i as int].1@));
        assert(all[best as int] == (links@[best as int].0@, links@[best as int].1@));
        let new_speed: u64 = speed_of(links[i].1.as_str());
        let best_speed: u64 = speed_of(links[best].1.as_str());
        if new_speed > best_speed || (new_speed == best_speed && rank_of_quality(
            links[i].0.as_str(),
        ) < rank_of_quality(links[best].0.as_str())) {
            best = i;
        }
        i = i + 1;
    }
    best
}

/// Extract a media URL from a JSON value: a string, or the best of an object's
/// quality levels.
pub fn extract_media_from_json_value(value: &Json) -> (r: Option<String>)
    ensures
        opt_text(r) == media_link(value@),
{
    match value {
        Json::Text(url) => {
            if url.as_str().is_empty() {
                None
            } else {
                Some(owned(url.as_str()))
            }
        },
        Json::Object(fields) => {
            let ghost all = value@->Object_0;
            let mp4 = gather_levels(fields, false, Ghost(all));
            if mp4.len() > 0 {
                let k: usize = choose_level(&mp4);
                return Some(owned(mp4[k].1.as_str()));
            }
            let hls = gather_levels(fields, true, Ghost(all));
            if hls.len() > 0 {
                let k: usize = best_ranked_link(&hls);
                Some(owned(hls[k].1.as_str()))
            } else {
                None
            }
        },
        _ => None,
    }
}

fn gather_levels(
    fields: &Vec<(String, Json)>,
    hls: bool,
    Ghost(all): Ghost<Seq<(Seq<char>, Tree)>>,
) -> (r: Vec<(String, String)>)
    requires
        all.len() == fields@.len(),
        forall|k: int|
            0 <= k < all.len() ==> #[trigger] all[k] == (fields@[k].0@, fields@[k].1@),
    ensures
        text_pairs(r@) == quality_links(all, all.len() as int, hls, Seq::empty(), Seq::empty()),
{
    let mut r: Vec<(String, String)> = Vec::new();
    let mut i: usize = 0;
    assert(text_pairs(r@) =~= Seq::empty());
    while i < fields.len()
        invariant
            i <= fields@.len() == all.len(),
            forall|k: int|
                0 <= k < all.len() ==> #[trigger] all[k] == (fields@[k].0@, fields@[k].1@),
            text_pairs(r@) == quality_links(all, i as int, hls, Seq::empty(), Seq::empty()),
        decreases fields.len() - i,
    {
        assert(all[i as int] == (fields@[i as int].0@, fields@[i as int].1@));
        match &fields[i].1 {
            Json::Text(url) => {
                assert(!is_bait(url@, Seq::empty(), Seq::empty()));
                if !url.as_str().is_empty() && is_hls_url(url.as_str()) == hls {
                    let ghost before = text_pairs(r@);
                    let label = owned(fields[i].0.as_str());
                    let link = owned(url.as_str());
                    r.push((label, link));
                    assert(text_pairs(r@) =~= before.push((label@, link@)));
                }
            },
            _ => {},
        }
        i = i + 1;
    }
    r
}

// ---------------------------------------------------------------------------
// Decoys and links in free text
// ---------------------------------------------------------------------------

/// Domains of decoy videos.
pub open spec fn decoy_domains() -> Seq<Seq<char>> {
    seq!["test-videos.co.uk"@, "sample-videos.com"@, "commondatastorage.googleapis.com"@]
}

/// Filenames of decoy videos.
pub open spec fn decoy_filenames() -> Seq<Seq<char>> {
    seq!["BigBuckBunny"@, "Big_Buck_Bunny_1080_10s_5MB"@, "bbb.mp4"@]
}

/// Whether a link is one of the known decoys.
pub open spec fn decoy(source: Seq<char>) -> bool {
    is_bait(source, decoy_domains(), decoy_filenames())
}

/// Whether a link is one of the known decoys.
pub fn is_decoy(source: &str) -> (r: bool)
    ensures
        r == decoy(source@),
{
    let domains: Vec<String> = vec![
        owned("test-videos.co.uk"),
        owned("sample-videos.com"),
        owned("commondatastorage.googleapis.com"),
    ];
    let filenames: Vec<String> = vec![
        owned("BigBuckBunny"),
        owned("Big_Buck_Bunny_1080_10s_5MB"),
        owned("bbb.mp4"),
    ];
    assert(texts(domains@) =~= decoy_domains());
    assert(texts(filenames@) =~= decoy_filenames());
    is_bait_source(source, domains.as_slice(), filenames.as_slice())
}

/// The first found link, from `i` on, that is no decoy and is, or is not, an
/// HLS playlist.
pub open spec fn first_genuine(
    found: Seq<Option<Seq<char>>>,
    hls: bool,
    i: int,
) -> Option<Seq<char>>
    decreases found.len() - i,
{
    if i < 0 || i >= found.len() {
        None
    } else if found[i] is Some && !decoy(found[i]->0) && is_hls(found[i]->0) == hls {
        found[i]
    } else {
        first_genuine(found, hls, i + 1)
    }
}

/// The first found link that is no decoy and is, or is not, an HLS playlist.
pub fn first_genuine_link(found: &Vec<Option<String>>, hls: bool) -> (r: Option<String>)
    ensures
        opt_text(r) == first_genuine(opt_texts(found@), hls, 0),
{
    let mut i: usize = 0;
    while i < found.len()
        invariant
            i <= found@.len(),
            first_genuine(opt_texts(found@), hls, 0) == first_genuine(
                opt_texts(found@),
                hls,
                i as int,
            ),
        decreases found.len() - i,
    {
        assert(opt_texts(found@)[i as int] == opt_text(found@[i as int]));
        match &found[i] {
            Some(url) => {
                if !is_decoy(url.as_str()) && is_hls_url(url.as_str()) == hls {
                    return Some(owned(url.as_str()));
                }
            },
            None => {},
        }
        i = i + 1;
    }
    None
}

/// The first genuine link among the matches of a pattern that is, or is not,
/// an HLS playlist.
pub open spec fn genuine_match(
    pattern: Seq<char>,
    text: Seq<char>,
    hls: bool,
) -> Option<Seq<char>> {
    match every_capture(pattern, text) {
        Some(found) => first_genuine(found, hls, 0),
        None => None,
    }
}

fn find_genuine(pattern: &str, text: &str, hls: bool) -> (r: Option<String>)
    ensures
        opt_text(r) == genuine_match(pattern@, text@, hls),
{
    match capture_every(pattern, text) {
        Some(found) => first_genuine_link(&found, hls),
        None => None,
    }
}

/// The first genuine MP4 link in a text; a playlist that mentions MP4 is none.
pub open spec fn mp4_in_text(text: Seq<char>) -> Option<Seq<char>> {
    genuine_match(r#"(https?://[^\s"']+\.mp4[^\s"']*)"#@, text, false)
}

/// The first genuine HLS link in a text.
pub open spec fn m3u8_in_text(text: Seq<char>) -> Option<Seq<char>> {
    genuine_match(r#"(https?://[^\s"']+\.m3u8[^\s"']*)"#@, text, true)
}

/// The first genuine link in a text, MP4 before HLS.
pub open spec fn link_in_text(text: Seq<char>) -> Option<Seq<char>> {
    match mp4_in_text(text) {
        Some(url) => Some(url),
        None => m3u8_in_text(text),
    }
}

/// Extract an MP4 URL from arbitrary text.
pub fn extract_mp4_url_from_text(text: &str) -> (r: Option<String>)
    ensures
        opt_text(r) == mp4_in_text(text@),
{
    find_genuine(r#"(https?://[^\s"']+\.mp4[^\s"']*)"#, text, false)
}

/// Extract an HLS playlist URL from arbitrary text.
pub fn extract_m3u8_url_from_text(text: &str) -> (r: Option<String>)
    ensures
        opt_text(r) == m3u8_in_text(text@),
{
    find_genuine(r#"(https?://[^\s"']+\.m3u8[^\s"']*)"#, text, true)
}

/// Extract a media URL from arbitrary text, MP4 before HLS.
pub fn extract_link_from_text(text: &str) -> (r: Option<String>)
    ensures
        opt_text(r) == link_in_text(text@),
{
    match extract_mp4_url_from_text(text) {
        Some(url) => Some(url),
        None => extract_m3u8_url_from_text(text),
    }
}

/// Whether the link that a page assigns to `source` can be used: genuine, not
/// empty, no HLS playlist.
pub open spec fn plain_source(url: Seq<char>) -> bool {
    !decoy(url) && url.len() > 0 && !is_hls(url)
}

/// What the assignment to `source` in a page comes to, given its match: a
/// link to use, or `None` where the page is searched on.
pub open spec fn assigned_source(group: Option<Option<Seq<char>>>) -> Option<Seq<char>> {
    match group {
        Some(Some(url)) if plain_source(url) => Some(url),
        _ => None,
    }
}

/// The link that a page shows openly: the one assigned to `source`, else the
/// first genuine MP4 link. HLS playlists are passed over.
pub open spec fn open_link(html: Seq<char>) -> Option<Seq<char>> {
    let source = r#"var\s+source\s*=\s*['"]([^'"]+)['"]"#@;
    let group = first_capture(source, html);
    if !regex_valid(source) || group == Some(None::<Seq<char>>) {
        None
    } else if assigned_source(group) is Some {
        assigned_source(group)
    } else {
        genuine_match(r#"(https?://[^"'<>]+\.mp4[^"'<>\s]*)"#@, html, false)
    }
}

/// What the assignment to `source` in a page comes to, given its match.
pub fn usable_source(group: &Option<Option<String>>) -> (r: Option<String>)
    ensures
        opt_text(r) == assigned_source(
            match *group {
                Some(g) => Some(opt_text(g)),
                None => None,
            },
        ),
{
    match group {
        Some(Some(url)) => if !is_decoy(url.as_str()) && !url.as_str().is_empty() && !is_hls_url(
            url.as_str(),
        ) {
            Some(owned(url.as_str()))
        } else {
            None
        },
        _ => None,
    }
}

/// Look for an assignment to `source`, then for direct MP4 URLs.
pub fn try_fallback_urls(html: &str) -> (r: Option<String>)
    ensures
        opt_text(r) == open_link(html@),
{
    let source = r#"var\s+source\s*=\s*['"]([^'"]+)['"]"#;
    if !pattern_compiles(source) {
        return None;
    }
    let group = capture_first(source, html);
    match &group {
        Some(None) => {
            return None;
        },
        _ => {},
    }
    match usable_source(&group) {
        Some(url) => Some(url),
        None => find_genuine(r#"(https?://[^"'<>]+\.mp4[^"'<>\s]*)"#, html, false),
    }
}

// ---------------------------------------------------------------------------
// Page metadata
// ---------------------------------------------------------------------------

/// The selector for the `<meta>` tags of a property.
pub open spec fn meta_selector(property: Seq<char>) -> Seq<char> {
    "meta[property='"@ + property + "'], meta[name='"@ + property + "']"@
}

/// The content of the first filled `<meta>` tag of a property.
pub open spec fn meta_content(html: Seq<char>, property: Seq<char>) -> Option<Seq<char>> {
    match element_attributes(html, meta_selector(property), "content"@) {
        Some(found) => first_present(found, 0),
        None => None,
    }
}

/// The trimmed text of the first element, where it is not blank.
pub open spec fn first_title(found: Seq<Seq<char>>) -> Option<Seq<char>> {
    if found.len() > 0 && trim(found[0]).len() > 0 {
        Some(trim(found[0]))
    } else {
        None
    }
}

/// The `<title>` of a page.
pub open spec fn document_title(html: Seq<char>) -> Option<Seq<char>> {
    match element_texts(html, "title"@) {
        Some(found) => first_title(found),
        None => None,
    }
}

pub open spec fn or_else(
    a: Option<Seq<char>>,
    b: Option<Seq<char>>,
) -> Option<Seq<char>> {
    if a is Some {
        a
    } else {
        b
    }
}

/// The title of a page: its social-media metadata, else its `<title>`.
pub open spec fn page_title(html: Seq<char>) -> Option<Seq<char>> {
    or_else(
        meta_content(html, "og:title"@),
        or_else(meta_content(html, "twitter:title"@), document_title(html)),
    )
}

/// The thumbnail of a page, from its social-media metadata.
pub open spec fn page_thumbnail(html: Seq<char>) -> Option<Seq<char>> {
    or_else(meta_content(html, "og:image"@), meta_content(html, "twitter:image"@))
}

/// Extract the content attribute of a `<meta>` tag by property or name.
pub fn extract_meta_content(html: &str, property: &str) -> (r: Option<String>)
    ensures
        opt_text(r) == meta_content(html@, property@),
{
    let mut selector = owned("meta[property='");
    push_text(&mut selector, property);
    push_text(&mut selector, "'], meta[name='");
    push_text(&mut selector, property);
    push_text(&mut selector, "']");
    match select_attributes(html, selector.as_str(), "content") {
        Some(found) => first_present_value(&found),
        None => None,
    }
}

/// The trimmed text of the first element, where it is not blank.
pub fn title_of_elements(found: &Vec<String>) -> (r: Option<String>)
    ensures
        opt_text(r) == first_title(texts(found@)),
{
    if found.len() == 0 {
        return None;
    }
    assert(texts(found@)[0] == found@[0]@);
    let trimmed = str_trim(found[0].as_str());
    if trimmed.as_str().is_empty() {
        None
    } else {
        Some(trimmed)
    }
}

/// Extract the `<title>` text from a page.
pub fn extract_document_title(html: &str) -> (r: Option<String>)
    ensures
        opt_text(r) == document_title(html@),
{
    match select_texts(html, "title") {
        Some(found) => title_of_elements(&found),
        None => None,
    }
}

/// The title of a page.
pub fn extract_title(html: &str) -> (r: Option<String>)
    ensures
        opt_text(r) == page_title(html@),
{
    match extract_meta_content(html, "og:title") {
        Some(t) => Some(t),
        None => match extract_meta_content(html, "twitter:title") {
            Some(t) => Some(t),
            None => extract_document_title(html),
        },
    }
}

/// The thumbnail of a page.
pub fn extract_thumbnail(html: &str) -> (r: Option<String>)
    ensures
        opt_text(r) == page_thumbnail(html@),
{
    match extract_meta_content(html, "og:image") {
        Some(t) => Some(t),
        None => extract_meta_content(html, "twitter:image"),
    }
}

// ---------------------------------------------------------------------------
// Results
// ---------------------------------------------------------------------------

/// The result of a built-in resolver.
pub open spec fn custom_result(
    source_url: Seq<char>,
    media_url: Seq<char>,
    title: Option<Seq<char>>,
    thumbnail: Option<Seq<char>>,
    cookies: Seq<Seq<char>>,
) -> ResolveModel {
    let hls = contains(media_url, ".m3u8"@);
    ResolveModel {
        source_url,
        direct_url: media_url,
        audio_url: None,
        category: if hls {
            UrlCategory::HlsManifest
        } else {
            UrlCategory::DirectMedia
        },
        mime_type: Some(
            if hls {
                "application/vnd.apple.mpegurl"@
            } else {
                "video/mp4"@
            },
        ),
        content_length: None,
        used_tor: false,
        title,
        duration: None,
        thumbnail,
        vcodec: None,
        acodec: None,
        width: None,
        height: None,
        subtitle_tracks: Seq::empty(),
        cookies,
        resolver_type: "custom"@,
    }
}

/// Build the result of a built-in resolver from the extracted data.
pub fn build_result(
    source_url: &str,
    media_url: &str,
    title: &Option<String>,
    thumbnail: &Option<String>,
    cookies: Vec<String>,
) -> (r: ResolveResult)
    ensures
        r@ == custom_result(
            source_url@,
            media_url@,
            opt_text(*title),
            opt_text(*thumbnail),
            texts(cookies@),
        ),
{
    let hls = str_contains(media_url, ".m3u8");
    let r = ResolveResult {
        source_url: owned(source_url),
        direct_url: owned(media_url),
        audio_url: None,
        category: if hls {
            UrlCategory::HlsManifest
        } else {
            UrlCategory::DirectMedia
        },
        mime_type: Some(
            if hls {
                owned("application/vnd.apple.mpegurl")
            } else {
                owned("video/mp4")
            },
        ),
        content_length: None,
        used_tor: false,
        title: clone_opt(title),
        duration: None,
        thumbnail: clone_opt(thumbnail),
        vcodec: None,
        acodec: None,
        width: None,
        height: None,
        subtitle_tracks: Vec::new(),
        cookies,
        resolver_type: owned("custom"),
    };
    assert(r@.subtitle_tracks =~= Seq::empty());
    r
}

// ---------------------------------------------------------------------------
// Proxies and cookies
// ---------------------------------------------------------------------------

/// Isolation user and address in a SOCKS5 proxy URL.
pub open spec fn socks5_parts(url: Seq<char>) -> Option<(Seq<char>, Seq<char>)> {
    let rest = or_else(strip_prefix(url, "socks5h://"@), strip_prefix(url, "socks5://"@));
    match rest {
        Some(t) => {
            let at = char_index(t, '@', 0);
            if at < t.len() {
                let address = t.skip(at + 1);
                Some(
                    (
                        t.take(at),
                        if address.len() > 0 && address.last() == '/' {
                            address.drop_last()
                        } else {
                            address
                        },
                    ),
                )
            } else {
                None
            }
        },
        None => None,
    }
}

/// Parse a SOCKS5 proxy URL into the isolation username and the address.
pub fn parse_socks5_url(url: &str) -> (r: Option<(String, String)>)
    ensures
        match r {
            Some((user, address)) => socks5_parts(url@) == Some((user@, address@)),
            None => socks5_parts(url@) is None,
        },
{
    let rest = match str_strip_prefix(url, "socks5h://") {
        Some(t) => t,
        None => match str_strip_prefix(url, "socks5://") {
            Some(t) => t,
            None => {
                return None;
            },
        },
    };
    let v = chars_of(rest.as_str());
    let at: usize = index_of_char(&v, '@', 0);
    if at == v.len() {
        return None;
    }
    let user = substring(&v, 0, at);
    assert(user@ =~= rest@.take(at as int));
    let end: usize = if v.len() > at + 1 && v[v.len() - 1] == '/' {
        v.len() - 1
    } else {
        v.len()
    };
    let address = substring(&v, at + 1, end);
    proof {
        let full = rest@.skip(at + 1);
        if end < v@.len() {
            assert(full.last() == '/');
            assert(address@ =~= full.drop_last());
        } else {
            assert(address@ =~= full);
        }
    }
    Some((user, address))
}

/// The `name=value` part of a `Set-Cookie` header.
pub fn cookie_pair(header: &str) -> (r: String)
    ensures
        r@ == trim(before_first(header@, ';')),
{
    let first = str_before_first(header, ';');
    str_trim(first.as_str())
}

// ---------------------------------------------------------------------------
// Laws
// ---------------------------------------------------------------------------

/// Where some quality level is sustainable, the chosen one is, and none that
/// is sustainable has a better rank.
pub proof fn lemma_chosen_level_sustained(links: Seq<(Seq<char>, Seq<char>)>, j: int)
    requires
        0 <= j < links.len(),
        sustainable(links[j]),
    ensures
        0 <= chosen_level(links) < links.len(),
        sustainable(links[chosen_level(links)]),
        quality_rank(links[chosen_level(links)].0) <= quality_rank(links[j].0),
{
    lemma_best_sustained(links, links.len() as int);
}

/// Among any levels one is chosen.
pub proof fn lemma_chosen_level(links: Seq<(Seq<char>, Seq<char>)>)
    requires
        links.len() > 0,
    ensures
        0 <= chosen_level(links) < links.len(),
{
    lemma_best_sustained(links, links.len() as int);
    lemma_fastest(links, links.len() as int);
}

proof fn lemma_best_sustained(links: Seq<(Seq<char>, Seq<char>)>, n: int)
    requires
        0 <= n <= links.len(),
    ensures
        match best_sustained(links, n) {
            Some(k) => {
                &&& 0 <= k < n
                &&& sustainable(links[k])
                &&& forall|j: int|
                    0 <= j < n && sustainable(#[trigger] links[j]) ==> quality_rank(links[k].0)
                        <= quality_rank(links[j].0)
            },
            None => forall|j: int| 0 <= j < n ==> !sustainable(#[trigger] links[j]),
        },
    decreases n,
{
    if n > 0 {
        lemma_best_sustained(links, n - 1);
    }
}

/// Where no quality level is sustainable, the chosen one has the highest speed
/// limit.
pub proof fn lemma_chosen_level_fastest(links: Seq<(Seq<char>, Seq<char>)>, j: int)
    requires
        forall|k: int| 0 <= k < links.len() ==> !sustainable(#[trigger] links[k]),
        0 <= j < links.len(),
    ensures
        0 <= chosen_level(links) < links.len(),
        speed_or_zero(links[chosen_level(links)].1) >= speed_or_zero(links[j].1),
{
    lemma_best_sustained(links, links.len() as int);
    lemma_fastest(links, links.len() as int);
}

proof fn lemma_fastest(links: Seq<(Seq<char>, Seq<char>)>, n: int)
    requires
        1 <= n <= links.len(),
    ensures
        0 <= fastest(links, n) < n,
        forall|j: int|
            0 <= j < n ==> speed_or_zero(links[fastest(links, n)].1) >= speed_or_zero(
                (#[trigger] links[j]).1,
            ),
    decreases n,
{
    if n > 1 {
        lemma_fastest(links, n - 1);
    }
}

/// HLS is the last resort: an HLS level is taken only where no MP4 level has a
/// link.
pub proof fn lemma_hls_last(fields: Seq<(Seq<char>, Tree)>, j: int, url: Seq<char>)
    requires
        0 <= j < fields.len(),
        fields[j].1 == Tree::Text(url),
        url.len() > 0,
        !is_hls(url),
    ensures
        media_link(Tree::Object(fields)) is Some,
        !is_hls(media_link(Tree::Object(fields))->0),
{
    let n = fields.len() as int;
    let mp4 = quality_links(fields, n, false, Seq::empty(), Seq::empty());
    assert(!is_bait(url, Seq::empty(), Seq::empty()));
    lemma_quality_links(fields, n, false, Seq::empty(), Seq::empty());
    lemma_quality_links_hold(fields, n, j, url, false, Seq::empty(), Seq::empty());
    lemma_chosen_level(mp4);
}

/// A link found in free text is never a decoy, and what counts as an MP4 link
/// there is no HLS playlist.
pub proof fn lemma_link_in_text_genuine(text: Seq<char>)
    ensures
        link_in_text(text) is Some ==> !decoy(link_in_text(text)->0),
        mp4_in_text(text) is Some ==> !is_hls(mp4_in_text(text)->0),
        m3u8_in_text(text) is Some ==> is_hls(m3u8_in_text(text)->0),
{
    match every_capture(r#"(https?://[^\s"']+\.mp4[^\s"']*)"#@, text) {
        Some(found) => lemma_first_genuine(found, false, 0),
        None => {},
    }
    match every_capture(r#"(https?://[^\s"']+\.m3u8[^\s"']*)"#@, text) {
        Some(found) => lemma_first_genuine(found, true, 0),
        None => {},
    }
}

/// A link that a page shows openly is neither a decoy nor an HLS playlist.
pub proof fn lemma_open_link_genuine(html: Seq<char>)
    ensures
        open_link(html) is Some ==> !decoy(open_link(html)->0) && !is_hls(open_link(html)->0),
{
    match every_capture(r#"(https?://[^"'<>]+\.mp4[^"'<>\s]*)"#@, html) {
        Some(found) => lemma_first_genuine(found, false, 0),
        None => {},
    }
}

proof fn lemma_first_genuine(found: Seq<Option<Seq<char>>>, hls: bool, i: int)
    requires
        0 <= i,
    ensures
        first_genuine(found, hls, i) is Some ==> {
            &&& !decoy(first_genuine(found, hls, i)->0)
            &&& is_hls(first_genuine(found, hls, i)->0) == hls
        },
    decreases found.len() - i,
{
    if i < found.len() {
        lemma_first_genuine(found, hls, i + 1);
    }
}

} // verus!
