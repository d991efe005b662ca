//! The DoodStream resolver: from a page address, by way of its embed page, to
//! a playable link.

use crate::deobfuscation::{capture, captured};
use crate::links::{join_url, parse_url, url_join, url_parse};
use crate::markup::{element_attributes, select_attributes};
use crate::media::{
    build_result, custom_result, decoy, extract_mp4_url_from_text, extract_thumbnail, extract_title,
    is_decoy, mp4_in_text, open_link, or_else, page_thumbnail, page_title, try_fallback_urls,
};
use crate::patterns::{capture_first, first_capture, opt_texts, pattern_compiles, regex_valid};
use crate::resolver::{ResolveError, ResolveFault, ResolveModel, ResolveResult};
use crate::text::{
    contains, join2, join3, opt_text, owned, push_text, starts_with, str_contains, str_starts_with,
    texts,
};
use vstd::prelude::*;

verus! {

// ---------------------------------------------------------------------------
// The embed page
// ---------------------------------------------------------------------------

/// The first address, from `i` on, of an embed page.
pub open spec fn embed_source(found: Seq<Option<Seq<char>>>, i: int) -> Option<Seq<char>>
    decreases found.len() - i,
{
    if i < 0 || i >= found.len() {
        None
    } else if found[i] is Some && contains(found[i]->0, "/e/"@) {
        found[i]
    } else {
        embed_source(found, i + 1)
    }
}

/// The embed page that a page shows in a frame.
pub open spec fn framed_embed(html: Seq<char>) -> Option<Seq<char>> {
    match element_attributes(html, "iframe"@, "src"@) {
        Some(found) => embed_source(found, 0),
        None => None,
    }
}

/// The embed page that belongs to a `/d/` address.
pub open spec fn derived_embed(url: Seq<char>) -> Option<Seq<char>> {
    match url_parse(url) {
        Ok(parts) => match captured(r#"^/d/([^/]+)$"#@, parts.path) {
            Some(id) => url_join(url, "/e/"@ + id),
            None => None,
        },
        Err(_) => None,
    }
}

/// The full address of an embed page.
pub open spec fn embed_address(url: Seq<char>, href: Seq<char>) -> Seq<char> {
    if starts_with(href, "http"@) {
        href
    } else {
        match url_join(url, href) {
            Some(full) => full,
            None => "https://playmogo.com"@ + href,
        }
    }
}

/// The first address of an embed page among the frames of a page.
pub fn pick_embed_source(found: &Vec<Option<String>>) -> (r: Option<String>)
    ensures
        opt_text(r) == embed_source(opt_texts(found@), 0),
{
    let mut i: usize = 0;
    while i < found.len()
        invariant
            i <= found@.len(),
            embed_source(opt_texts(found@), 0) == embed_source(opt_texts(found@), i as int),
        decreases found.len() - i,
    {
        assert(opt_texts(found@)[i as int] == opt_text(found@[i as int]));
        match &found[i] {
            Some(src) => {
                if str_contains(src.as_str(), "/e/") {
                    return Some(owned(src.as_str()));
                }
            },
            None => {},
        }
        i = i + 1;
    }
    None
}

/// Find the embed frame in a DoodStream page.
pub fn find_embed_iframe(html: &str) -> (r: Option<String>)
    ensures
        opt_text(r) == framed_embed(html@),
{
    match select_attributes(html, "iframe", "src") {
        Some(found) => pick_embed_source(&found),
        None => None,
    }
}

/// Derive the embed URL from a `/d/` URL.
pub fn derive_embed_url(url: &str) -> (r: Option<String>)
    ensures
        opt_text(r) == derived_embed(url@),
{
    match parse_url(url) {
        Ok(parts) => match capture(r#"^/d/([^/]+)$"#, parts.path.as_str()) {
            Some(id) => join_url(url, join2("/e/", id.as_str()).as_str()),
            None => None,
        },
        Err(_) => None,
    }
}

fn full_embed_address(url: &str, href: &str) -> (r: String)
    ensures
        r@ == embed_address(url@, href@),
{
    if str_starts_with(href, "http") {
        owned(href)
    } else {
        match join_url(url, href) {
            Some(full) => full,
            None => join2("https://playmogo.com", href),
        }
    }
}

// ---------------------------------------------------------------------------
// The media link
// ---------------------------------------------------------------------------

/// The address behind the `pass_md5` path of an embed page.
pub open spec fn pass_address(embed_url: Seq<char>, path: Seq<char>) -> Option<Seq<char>> {
    match url_parse(embed_url) {
        Ok(parts) => match parts.host {
            Some(host) => Some(parts.scheme + "://"@ + host + "/pass_md5/"@ + path),
            None => None,
        },
        Err(_) => None,
    }
}

/// What an embed page comes to, given its `pass_md5` match and the MP4 link
/// in its text.
pub open spec fn embed_link(
    group: Option<Option<Seq<char>>>,
    mp4: Option<Seq<char>>,
    embed_url: Seq<char>,
) -> Option<Seq<char>> {
    match group {
        Some(Some(path)) => match pass_address(embed_url, path) {
            Some(address) => if decoy(address) {
                mp4
            } else {
                Some(address)
            },
            None => None,
        },
        Some(None) => None,
        None => mp4,
    }
}

/// The media link of an embed page.
pub open spec fn embed_media(html: Seq<char>, embed_url: Seq<char>) -> Option<Seq<char>> {
    let pass = r#"/pass_md5/([^"'\s]+)"#@;
    if regex_valid(pass) {
        embed_link(first_capture(pass, html), mp4_in_text(html), embed_url)
    } else {
        None
    }
}

fn make_pass_address(embed_url: &str, path: &str) -> (r: Option<String>)
    ensures
        opt_text(r) == pass_address(embed_url@, path@),
{
    match parse_url(embed_url) {
        Ok(parts) => match &parts.host {
            Some(host) => {
                let mut r = join3(parts.scheme.as_str(), "://", host.as_str());
                push_text(&mut r, "/pass_md5/");
                push_text(&mut r, path);
                Some(r)
            },
            None => None,
        },
        Err(_) => None,
    }
}

/// Extract the direct media URL from the embed page.
pub fn extract_doodstream_media(embed_html: &str, embed_url: &str) -> (r: Option<String>)
    ensures
        opt_text(r) == embed_media(embed_html@, embed_url@),
{
    let pass = r#"/pass_md5/([^"'\s]+)"#;
    if !pattern_compiles(pass) {
        return None;
    }
    match capture_first(pass, embed_html) {
        Some(Some(path)) => match make_pass_address(embed_url, path.as_str()) {
            Some(address) => if is_decoy(address.as_str()) {
                extract_mp4_url_from_text(embed_html)
            } else {
                Some(address)
            },
            None => None,
        },
        Some(None) => None,
        None => extract_mp4_url_from_text(embed_html),
    }
}

// ---------------------------------------------------------------------------
// Resolution
// ---------------------------------------------------------------------------

/// A fetched page.
#[derive(Debug)]
pub struct FetchedPage {
    /// Its HTML.
    pub html: String,
    /// The cookies it set.
    pub cookies: Vec<String>,
}

/// An embed page to fetch, with what the main page gave.
#[derive(Debug)]
pub struct EmbedPage {
    /// Address of the embed page.
    pub url: String,
    /// Title from the main page.
    pub title: Option<String>,
    /// Thumbnail from the main page.
    pub thumbnail: Option<String>,
    /// Cookies from the main page.
    pub cookies: Vec<String>,
}

/// What to do next when resolving a DoodStream page.
#[derive(Debug)]
pub enum DoodStep {
    /// Fetch the embed page, with the main page as referer, and go on with
    /// [`doodstream_finish`].
    Embed(EmbedPage),
    /// Done.
    Done(Result<ResolveResult, ResolveError>),
}

/// The error of a DoodStream address without media.
pub open spec fn no_dood_media(url: Seq<char>) -> ResolveFault {
    ResolveFault::NoMediaFound("DoodStream resolver: could not extract media URL from "@ + url)
}

fn dood_error(url: &str) -> (r: ResolveError)
    ensures
        r@ == no_dood_media(url@),
{
    ResolveError::NoMediaFound(
        join2("DoodStream resolver: could not extract media URL from ", url),
    )
}

/// The embed page of an address, given the main page where it could be
/// fetched.
pub open spec fn embed_of(url: Seq<char>, html: Option<Seq<char>>) -> Option<Seq<char>> {
    let href = match html {
        Some(h) => or_else(framed_embed(h), derived_embed(url)),
        None => derived_embed(url),
    };
    match href {
        Some(h) => Some(embed_address(url, h)),
        None => None,
    }
}

/// Goes on after the main page was fetched, or could not be: a link shown
/// openly is the result; else the embed page is next.
pub fn doodstream_after_main(url: &str, page: Option<FetchedPage>) -> (r: DoodStep)
    ensures
        match page {
            Some(main) => match open_link(main.html@) {
                Some(link) => r matches DoodStep::Done(Ok(result)) && result@ == custom_result(
                    url@,
                    link,
                    page_title(main.html@),
                    page_thumbnail(main.html@),
                    texts(main.cookies@),
                ),
                None => match embed_of(url@, Some(main.html@)) {
                    Some(address) => r matches DoodStep::Embed(next) && next.url@ == address
                        && opt_text(next.title) == page_title(main.html@) && opt_text(
                        next.thumbnail,
                    ) == page_thumbnail(main.html@) && texts(next.cookies@) == texts(
                        main.cookies@,
                    ),
                    None => r matches DoodStep::Done(Err(e)) && e@ == no_dood_media(url@),
                },
            },
            None => match embed_of(url@, None) {
                Some(address) => r matches DoodStep::Embed(next) && next.url@ == address
                    && next.title is None && next.thumbnail is None && next.cookies@.len() == 0,
                None => r matches DoodStep::Done(Err(e)) && e@ == no_dood_media(url@),
            },
        },
{
    match page {
        Some(main) => {
            let html = main.html.as_str();
            let title = extract_title(html);
            let thumbnail = extract_thumbnail(html);
            match try_fallback_urls(html) {
                Some(link) => {
                    return DoodStep::Done(
                        Ok(build_result(url, link.as_str(), &title, &thumbnail, main.cookies)),
                    );
                },
                None => {},
            }
            let framed = find_embed_iframe(html);
            let href = match framed {
                Some(h) => Some(h),
                None => derive_embed_url(url),
            };
            match href {
                Some(h) => {
                    let address = full_embed_address(url, h.as_str());
                    DoodStep::Embed(
                        EmbedPage { url: address, title, thumbnail, cookies: main.cookies },
                    )
                },
                None => DoodStep::Done(Err(dood_error(url))),
            }
        },
        None => match derive_embed_url(url) {
            Some(h) => {
                let address = full_embed_address(url, h.as_str());
                DoodStep::Embed(
                    EmbedPage { url: address, title: None, thumbnail: None, cookies: Vec::new() },
                )
            },
            None => DoodStep::Done(Err(dood_error(url))),
        },
    }
}

/// What an embed page comes to: its media link, else one it shows openly.
pub open spec fn embed_result(
    url: Seq<char>,
    next: EmbedPage,
    html: Seq<char>,
    cookies: Seq<Seq<char>>,
) -> Option<ResolveModel> {
    match or_else(embed_media(html, next.url@), open_link(html)) {
        Some(link) => Some(
            custom_result(
                url,
                link,
                opt_text(next.title),
                opt_text(next.thumbnail),
                texts(next.cookies@) + cookies,
            ),
        ),
        None => None,
    }
}

/// Reads the embed page of an address, where it could be fetched.
pub fn doodstream_finish(url: &str, next: EmbedPage, page: Option<FetchedPage>) -> (r: Result<
    ResolveResult,
    ResolveError,
>)
    ensures
        match page {
            Some(embed) => match embed_result(url@, next, embed.html@, texts(embed.cookies@)) {
                Some(model) => r matches Ok(result) && result@ == model,
                None => r matches Err(e) && e@ == no_dood_media(url@),
            },
            None => r matches Err(e) && e@ == no_dood_media(url@),
        },
{
    match page {
        Some(embed) => {
            let html = embed.html.as_str();
            let link = match extract_doodstream_media(html, next.url.as_str()) {
                Some(link) => Some(link),
                None => try_fallback_urls(html),
            };
            match link {
                Some(link) => {
                    let mut cookies = next.cookies;
                    let ghost first = texts(cookies@);
                    let mut more = embed.cookies;
                    let ghost second = texts(more@);
                    cookies.append(&mut more);
                    assert(texts(cookies@) =~= first + second);
                    Ok(build_result(url, link.as_str(), &next.title, &next.thumbnail, cookies))
                },
                None => Err(dood_error(url)),
            }
        },
        None => Err(dood_error(url)),
    }
}

} // verus!
