//! Classification of URLs by their structure alone.

use crate::custom::{is_voe, is_voe_domain};
use crate::links::{UrlModel, UrlParts};
use crate::text::{
    after_last, ends_with, host_in_domains, in_domains, lower, one_of, owned, same_text,
    str_after_last, str_ends_with, strs, to_lowercase,
};
use vstd::prelude::*;

verus! {

/// High-level classification of a URL.
#[derive(Debug, Clone, Copy, PartialEq, Eq, Structural)]
pub enum UrlCategory {
    /// Direct link to a media file.
    DirectMedia,
    /// HTTP Live Streaming manifest.
    HlsManifest,
    /// MPEG-DASH manifest.
    DashManifest,
    /// A web page that embeds media.
    WebPage,
    /// A magnet link.
    Magnet,
    /// An `.onion` address that must be fetched over Tor.
    Onion,
}

/// The name of a category.
pub open spec fn category_name(category: UrlCategory) -> Seq<char> {
    match category {
        UrlCategory::DirectMedia => "direct_media"@,
        UrlCategory::HlsManifest => "hls_manifest"@,
        UrlCategory::DashManifest => "dash_manifest"@,
        UrlCategory::WebPage => "web_page"@,
        UrlCategory::Magnet => "magnet"@,
        UrlCategory::Onion => "onion"@,
    }
}

/// The category with a given name; unknown names stand for direct media.
pub open spec fn category_of_name(name: Seq<char>) -> UrlCategory {
    if name == "direct_media"@ {
        UrlCategory::DirectMedia
    } else if name == "hls_manifest"@ {
        UrlCategory::HlsManifest
    } else if name == "dash_manifest"@ {
        UrlCategory::DashManifest
    } else if name == "web_page"@ {
        UrlCategory::WebPage
    } else if name == "magnet"@ {
        UrlCategory::Magnet
    } else if name == "onion"@ {
        UrlCategory::Onion
    } else {
        UrlCategory::DirectMedia
    }
}

impl UrlCategory {
    /// The name of the category.
    pub fn name(&self) -> (r: String)
        ensures
            r@ == category_name(*self),
    {
        match self {
            UrlCategory::DirectMedia => owned("direct_media"),
            UrlCategory::HlsManifest => owned("hls_manifest"),
            UrlCategory::DashManifest => owned("dash_manifest"),
            UrlCategory::WebPage => owned("web_page"),
            UrlCategory::Magnet => owned("magnet"),
            UrlCategory::Onion => owned("onion"),
        }
    }

    /// The category with a given name; unknown names stand for direct media.
    pub fn from_str(s: &str) -> (r: Self)
        ensures
            r == category_of_name(s@),
    {
        if same_text(s, "direct_media") {
            UrlCategory::DirectMedia
        } else if same_text(s, "hls_manifest") {
            UrlCategory::HlsManifest
        } else if same_text(s, "dash_manifest") {
            UrlCategory::DashManifest
        } else if same_text(s, "web_page") {
            UrlCategory::WebPage
        } else if same_text(s, "magnet") {
            UrlCategory::Magnet
        } else if same_text(s, "onion") {
            UrlCategory::Onion
        } else {
            UrlCategory::DirectMedia
        }
    }
}

/// Known video hosting domains whose pages embed media.
pub open spec fn web_page_domains() -> Seq<Seq<char>> {
    seq![
        "youtube.com"@,
        "www.youtube.com"@,
        "m.youtube.com"@,
        "youtu.be"@,
        "vimeo.com"@,
        "player.vimeo.com"@,
        "twitch.tv"@,
        "www.twitch.tv"@,
        "clips.twitch.tv"@,
        "dailymotion.com"@,
        "www.dailymotion.com"@,
        "facebook.com"@,
        "www.facebook.com"@,
        "instagram.com"@,
        "www.instagram.com"@,
        "twitter.com"@,
        "x.com"@,
        "www.x.com"@,
        "tiktok.com"@,
        "www.tiktok.com"@,
        "reddit.com"@,
        "www.reddit.com"@,
        "streamable.com"@,
        "voe.sx"@,
        "playmogo.com"@,
        "doodstream.com"@,
        "dood.to"@,
        "dood.watch"@,
        "dood.la"@,
        "dood.ws"@,
    ]
}

fn is_web_page_host(host_lower: &str) -> (r: bool)
    ensures
        r == in_domains(host_lower@, web_page_domains()),
{
    let domains: [&str; 30] = [
        "youtube.com",
        "www.youtube.com",
        "m.youtube.com",
        "youtu.be",
        "vimeo.com",
        "player.vimeo.com",
        "twitch.tv",
        "www.twitch.tv",
        "clips.twitch.tv",
        "dailymotion.com",
        "www.dailymotion.com",
        "facebook.com",
        "www.facebook.com",
        "instagram.com",
        "www.instagram.com",
        "twitter.com",
        "x.com",
        "www.x.com",
        "tiktok.com",
        "www.tiktok.com",
        "reddit.com",
        "www.reddit.com",
        "streamable.com",
        "voe.sx",
        "playmogo.com",
        "doodstream.com",
        "dood.to",
        "dood.watch",
        "dood.la",
        "dood.ws",
    ];
    assert(strs(domains@) =~= web_page_domains());
    host_in_domains(host_lower, &domains)
}

/// File extensions that indicate a direct media file.
pub open spec fn media_extensions() -> Seq<Seq<char>> {
    seq![
        "mp4"@,
        "mkv"@,
        "webm"@,
        "avi"@,
        "mov"@,
        "flv"@,
        "wmv"@,
        "m4v"@,
        "mp3"@,
        "flac"@,
        "ogg"@,
        "opus"@,
        "wav"@,
        "aac"@,
        "m4a"@,
        "wma"@,
        "ts"@,
    ]
}

fn is_media_extension(ext: &str) -> (r: bool)
    ensures
        r == media_extensions().contains(ext@),
{
    let known: [&str; 17] = [
        "mp4",
        "mkv",
        "webm",
        "avi",
        "mov",
        "flv",
        "wmv",
        "m4v",
        "mp3",
        "flac",
        "ogg",
        "opus",
        "wav",
        "aac",
        "m4a",
        "wma",
        "ts",
    ];
    assert(strs(known@) =~= media_extensions());
    one_of(ext, &known)
}

/// The category that the extension of a path stands for.
pub open spec fn category_of_extension(ext: Seq<char>) -> UrlCategory {
    if ext == "m3u8"@ {
        UrlCategory::HlsManifest
    } else if ext == "mpd"@ {
        UrlCategory::DashManifest
    } else if media_extensions().contains(ext) {
        UrlCategory::DirectMedia
    } else {
        UrlCategory::WebPage
    }
}

/// The category of a URL. In order: onion hosts, the magnet scheme, known page
/// hosts, the extension of the path.
pub open spec fn category_of(url: UrlModel) -> UrlCategory {
    if url.host is Some && ends_with(url.host->0, ".onion"@) {
        UrlCategory::Onion
    } else if url.scheme == "magnet"@ {
        UrlCategory::Magnet
    } else if url.host is Some && (in_domains(lower(url.host->0), web_page_domains()) || is_voe(
        url.host->0,
    )) {
        UrlCategory::WebPage
    } else {
        category_of_extension(after_last(lower(url.path), '.'))
    }
}

/// Classify a parsed URL, without network access.
pub fn classify_url(url: &UrlParts) -> (r: UrlCategory)
    ensures
        r == category_of(url@),
{
    match &url.host {
        Some(host) => {
            if str_ends_with(host.as_str(), ".onion") {
                return UrlCategory::Onion;
            }
        },
        None => {},
    }
    if same_text(url.scheme.as_str(), "magnet") {
        return UrlCategory::Magnet;
    }
    match &url.host {
        Some(host) => {
            let host_lower = to_lowercase(host.as_str());
            if is_web_page_host(host_lower.as_str()) || is_voe_domain(host.as_str()) {
                return UrlCategory::WebPage;
            }
        },
        None => {},
    }
    let path = to_lowercase(url.path.as_str());
    let extension = str_after_last(path.as_str(), '.');
    if same_text(extension.as_str(), "m3u8") {
        UrlCategory::HlsManifest
    } else if same_text(extension.as_str(), "mpd") {
        UrlCategory::DashManifest
    } else if is_media_extension(extension.as_str()) {
        UrlCategory::DirectMedia
    } else {
        UrlCategory::WebPage
    }
}

/// The rules of classification, each before the next: onion hosts, magnets,
/// known page hosts, the extension, and pages where nothing else holds.
pub proof fn lemma_classification_order(url: UrlModel)
    ensures
        url.host is Some && ends_with(url.host->0, ".onion"@) ==> category_of(url)
            == UrlCategory::Onion,
        category_of(url) == UrlCategory::Onion ==> url.host is Some && ends_with(
            url.host->0,
            ".onion"@,
        ),
        url.scheme == "magnet"@ && category_of(url) != UrlCategory::Onion ==> category_of(url)
            == UrlCategory::Magnet,
        category_of(url) == UrlCategory::Magnet ==> url.scheme == "magnet"@,
        url.host is Some && url.scheme != "magnet"@ && category_of(url) != UrlCategory::Onion && (
        in_domains(lower(url.host->0), web_page_domains()) || is_voe(url.host->0)) ==> category_of(
            url,
        ) == UrlCategory::WebPage,
        category_of(url) == UrlCategory::DirectMedia ==> media_extensions().contains(
            after_last(lower(url.path), '.'),
        ),
{
}

/// Reading a category's name gives the category back.
pub proof fn lemma_category_name_round_trip(category: UrlCategory)
    ensures
        category_of_name(category_name(category)) == category,
{
    reveal_strlit("direct_media");
    reveal_strlit("hls_manifest");
    reveal_strlit("dash_manifest");
    reveal_strlit("web_page");
    reveal_strlit("magnet");
    reveal_strlit("onion");
    assert("direct_media"@[0] == 'd');
    assert("hls_manifest"@[0] == 'h');
    assert("dash_manifest"@[1] == 'a');
    assert("direct_media"@[1] == 'i');
    assert("web_page"@[0] == 'w');
    assert("magnet"@[0] == 'm');
    assert("onion"@[0] == 'o');
}

} // verus!
