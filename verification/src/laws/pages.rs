//! Laws of reading pages: titles and thumbnails, embed pages, and what the
//! built-in resolvers report.

use crate::classifier::UrlCategory;
use crate::deobfuscation::captured;
use crate::doodstream::{
    derived_embed, embed_address, embed_media, embed_of, embed_result, embed_source, framed_embed,
    no_dood_media, EmbedPage,
};
use crate::links::{url_join, url_parse, UrlModel};
use crate::markup::{element_attributes, element_texts};
use crate::media::{
    custom_result, decoy, document_title, meta_content, mp4_in_text, open_link, page_thumbnail,
    page_title, socks5_parts,
};
use crate::patterns::{first_capture, regex_valid};
use crate::resolver::ResolveFault;
use crate::text::{
    char_index, contains, lemma_char_index, opt_text, starts_with, strip_prefix, texts, trim,
};
use vstd::prelude::*;

verus! {

// ---------------------------------------------------------------------------
// Results
// ---------------------------------------------------------------------------

/// A link that was found is reported with what its page says; it is a playlist
/// where `.m3u8` stands in it, and else a file.
pub proof fn law_found_link_reported(
    source: Seq<char>,
    link: Seq<char>,
    title: Option<Seq<char>>,
    thumbnail: Option<Seq<char>>,
    cookies: Seq<Seq<char>>,
)
    ensures
        ({
            let model = custom_result(source, link, title, thumbnail, cookies);
            &&& model.source_url == source
            &&& model.direct_url == link
            &&& model.audio_url is None
            &&& model.title == title
            &&& model.thumbnail == thumbnail
            &&& model.cookies == cookies
            &&& model.resolver_type == "custom"@
            &&& model.duration is None
            &&& contains(link, ".m3u8"@) ==> model.category == UrlCategory::HlsManifest
                && model.mime_type == Some("application/vnd.apple.mpegurl"@)
            &&& !contains(link, ".m3u8"@) ==> model.category == UrlCategory::DirectMedia
                && model.mime_type == Some("video/mp4"@)
        }),
{
}

// ---------------------------------------------------------------------------
// Metadata
// ---------------------------------------------------------------------------

/// A title comes from the page's metadata, Open Graph before Twitter, else from
/// its title element; a thumbnail from metadata alone.
pub proof fn law_metadata_order(html: Seq<char>)
    ensures
        meta_content(html, "og:title"@) is Some ==> page_title(html) == meta_content(
            html,
            "og:title"@,
        ),
        meta_content(html, "og:title"@) is None && meta_content(html, "twitter:title"@) is Some
            ==> page_title(html) == meta_content(html, "twitter:title"@),
        meta_content(html, "og:title"@) is None && meta_content(html, "twitter:title"@) is None
            ==> page_title(html) == document_title(html),
        meta_content(html, "og:image"@) is Some ==> page_thumbnail(html) == meta_content(
            html,
            "og:image"@,
        ),
        meta_content(html, "og:image"@) is None ==> page_thumbnail(html) == meta_content(
            html,
            "twitter:image"@,
        ),
{
}

/// Metadata is the first filled `content` of a tag with that property or name.
pub proof fn law_metadata_read(
    html: Seq<char>,
    property: Seq<char>,
    found: Seq<Option<Seq<char>>>,
    k: int,
    value: Seq<char>,
)
    requires
        element_attributes(
            html,
            "meta[property='"@ + property + "'], meta[name='"@ + property + "']"@,
            "content"@,
        ) == Some(found),
        0 <= k < found.len(),
        found[k] == Some(value),
        value.len() > 0,
        forall|j: int| 0 <= j < k ==> ((#[trigger] found[j]) matches Some(v) ==> v.len() == 0),
    ensures
        meta_content(html, property) == Some(value),
{
    crate::laws::levels::law_first_present(found, k, value);
}

/// The title element counts where it is not blank, without the space around it.
pub proof fn law_title_element(html: Seq<char>, found: Seq<Seq<char>>)
    requires
        element_texts(html, "title"@) == Some(found),
        found.len() > 0,
    ensures
        trim(found[0]).len() > 0 ==> document_title(html) == Some(trim(found[0])),
        trim(found[0]).len() == 0 ==> document_title(html) is None,
{
}

// ---------------------------------------------------------------------------
// Embed pages
// ---------------------------------------------------------------------------

/// The embed page of a page is the first of its frames whose address has `/e/`
/// in it.
pub proof fn law_frame_found(
    html: Seq<char>,
    found: Seq<Option<Seq<char>>>,
    k: int,
    address: Seq<char>,
)
    requires
        element_attributes(html, "iframe"@, "src"@) == Some(found),
        0 <= k < found.len(),
        found[k] == Some(address),
        contains(address, "/e/"@),
        forall|j: int|
            0 <= j < k ==> ((#[trigger] found[j]) matches Some(a) ==> !contains(a, "/e/"@)),
    ensures
        framed_embed(html) == Some(address),
{
    lemma_frames_skipped(found, 0, k);
}

proof fn lemma_frames_skipped(found: Seq<Option<Seq<char>>>, i: int, k: int)
    requires
        0 <= i <= k < found.len(),
        forall|j: int|
            0 <= j < k ==> ((#[trigger] found[j]) matches Some(a) ==> !contains(a, "/e/"@)),
    ensures
        embed_source(found, i) == embed_source(found, k),
    decreases k - i,
{
    if i < k {
        lemma_frames_skipped(found, i + 1, k);
    }
}

/// A `/d/` address has its embed page under `/e/`, with the same id, on the
/// same host.
pub proof fn law_embed_derived(url: Seq<char>, parts: UrlModel, id: Seq<char>)
    requires
        url_parse(url) == Ok::<UrlModel, Seq<char>>(parts),
        captured(r#"^/d/([^/]+)$"#@, parts.path) == Some(id),
    ensures
        derived_embed(url) == url_join(url, "/e/"@ + id),
{
}

/// A frame in the page counts before the address itself; without a page the
/// address decides alone. Relative addresses are resolved against the
/// submitted one.
pub proof fn law_embed_chosen(url: Seq<char>, html: Seq<char>)
    ensures
        framed_embed(html) matches Some(href) ==> {
            &&& starts_with(href, "http"@) ==> embed_of(url, Some(html)) == Some(href)
            &&& !starts_with(href, "http"@) ==> (url_join(url, href) matches Some(full) ==> embed_of(
                url,
                Some(html),
            ) == Some(full))
        },
        framed_embed(html) is None ==> embed_of(url, Some(html)) == embed_of(url, None),
        derived_embed(url) matches Some(href) ==> (starts_with(href, "http"@) ==> embed_of(
            url,
            None,
        ) == Some(href)),
        derived_embed(url) is None ==> embed_of(url, None) is None,
{
}

/// The media link of an embed page is the one behind its `pass_md5` path, on
/// the embed page's own host; where that is a decoy or missing, an MP4 link in
/// the page.
pub proof fn law_embed_link(html: Seq<char>, embed_url: Seq<char>, parts: UrlModel, host: Seq<char>)
    requires
        regex_valid(r#"/pass_md5/([^"'\s]+)"#@),
        url_parse(embed_url) == Ok::<UrlModel, Seq<char>>(parts),
        parts.host == Some(host),
    ensures
        first_capture(r#"/pass_md5/([^"'\s]+)"#@, html) matches Some(Some(path)) ==> ({
            let address = parts.scheme + "://"@ + host + "/pass_md5/"@ + path;
            &&& !decoy(address) ==> embed_media(html, embed_url) == Some(address)
            &&& decoy(address) ==> embed_media(html, embed_url) == mp4_in_text(html)
        }),
        first_capture(r#"/pass_md5/([^"'\s]+)"#@, html) is None ==> embed_media(html, embed_url)
            == mp4_in_text(html),
{
}

/// What the embed page comes to is reported under the submitted address, with
/// what the main page said and the cookies of both; a link it shows openly
/// comes second.
pub proof fn law_embed_reported(
    url: Seq<char>,
    next: EmbedPage,
    html: Seq<char>,
    cookies: Seq<Seq<char>>,
)
    ensures
        embed_result(url, next, html, cookies) matches Some(model) ==> {
            &&& model.source_url == url
            &&& model.title == opt_text(next.title)
            &&& model.thumbnail == opt_text(next.thumbnail)
            &&& model.cookies == texts(next.cookies@) + cookies
            &&& embed_media(html, next.url@) is Some ==> Some(model.direct_url) == embed_media(
                html,
                next.url@,
            )
            &&& embed_media(html, next.url@) is None ==> Some(model.direct_url) == open_link(html)
        },
        embed_result(url, next, html, cookies) is None <==> embed_media(html, next.url@) is None
            && open_link(html) is None,
        no_dood_media(url) == ResolveFault::NoMediaFound(
            "DoodStream resolver: could not extract media URL from "@ + url,
        ),
{
}

// ---------------------------------------------------------------------------
// Proxies
// ---------------------------------------------------------------------------

/// The parts of a proxy address are the user before the `@` and the address
/// behind it; a slash at the end does not count.
pub proof fn law_proxy_parts(user: Seq<char>, address: Seq<char>)
    requires
        forall|i: int| 0 <= i < user.len() ==> #[trigger] user[i] != '@',
        address.len() > 0,
        address.last() != '/',
    ensures
        socks5_parts("socks5h://"@ + user + "@"@ + address) == Some((user, address)),
        socks5_parts("socks5h://"@ + user + "@"@ + address + "/"@) == Some((user, address)),
{
    reveal_strlit("socks5h://");
    reveal_strlit("@");
    reveal_strlit("/");
    let a = "socks5h://"@ + user + "@"@ + address;
    let b = a + "/"@;
    lemma_parts(a, user, address);
    lemma_parts(b, user, address + "/"@);
    assert((address + "/"@).drop_last() =~= address);
    assert(b =~= "socks5h://"@ + user + "@"@ + (address + "/"@));
}

proof fn lemma_parts(url: Seq<char>, user: Seq<char>, address: Seq<char>)
    requires
        forall|i: int| 0 <= i < user.len() ==> #[trigger] user[i] != '@',
        url == "socks5h://"@ + user + "@"@ + address || url =~= "socks5h://"@ + user + "@"@
            + address,
        address.len() > 0,
    ensures
        socks5_parts(url) == Some(
            (
                user,
                if address.last() == '/' {
                    address.drop_last()
                } else {
                    address
                },
            ),
        ),
{
    reveal_strlit("socks5h://");
    reveal_strlit("@");
    let t = user + "@"@ + address;
    assert(url.subrange(0, 10) =~= "socks5h://"@);
    assert(starts_with(url, "socks5h://"@));
    assert(url.skip(10) =~= t);
    assert(strip_prefix(url, "socks5h://"@) == Some(t));
    lemma_char_index(t, '@', 0);
    let at = char_index(t, '@', 0);
    assert(t[user.len() as int] == '@');
    if at < user.len() {
        assert(t[at] == user[at]);
    }
    assert(at == user.len());
    assert(t.take(at) =~= user);
    assert(t.skip(at + 1) =~= address);
}

/// An address that cannot be resolved against the submitted one is taken to be
/// DoodStream's own.
pub proof fn law_embed_address(url: Seq<char>, href: Seq<char>)
    ensures
        starts_with(href, "http"@) ==> embed_address(url, href) == href,
        !starts_with(href, "http"@) ==> (url_join(url, href) matches Some(full) ==> embed_address(
            url,
            href,
        ) == full),
        !starts_with(href, "http"@) && url_join(url, href) is None ==> embed_address(url, href)
            == "https://playmogo.com"@ + href,
{
}

/// A page without a title element has no such title.
pub proof fn law_no_title_element(html: Seq<char>)
    requires
        element_texts(html, "title"@) matches Some(found) ==> found.len() == 0,
    ensures
        document_title(html) is None,
{
}

/// A proxy address without a user, or under another scheme, has no parts.
pub proof fn law_proxy_unparted(rest: Seq<char>, url: Seq<char>)
    requires
        forall|i: int| 0 <= i < rest.len() ==> #[trigger] rest[i] != '@',
        !starts_with(url, "socks5h://"@),
        !starts_with(url, "socks5://"@),
    ensures
        socks5_parts("socks5h://"@ + rest) is None,
        socks5_parts(url) is None,
{
    reveal_strlit("socks5h://");
    let full = "socks5h://"@ + rest;
    assert(full.subrange(0, 10) =~= "socks5h://"@);
    assert(starts_with(full, "socks5h://"@));
    assert(full.skip(10) =~= rest);
    lemma_char_index(rest, '@', 0);
    let at = char_index(rest, '@', 0);
    if at < rest.len() {
        assert(rest[at] != '@');
    }
}

/// A link that was found says nothing of Tor, length or codecs.
pub proof fn law_found_link_bare(
    source: Seq<char>,
    link: Seq<char>,
    title: Option<Seq<char>>,
    thumbnail: Option<Seq<char>>,
    cookies: Seq<Seq<char>>,
)
    ensures
        ({
            let model = custom_result(source, link, title, thumbnail, cookies);
            &&& !model.used_tor
            &&& model.content_length is None
            &&& model.vcodec is None
            &&& model.acodec is None
            &&& model.width is None
            &&& model.height is None
            &&& model.subtitle_tracks.len() == 0
        }),
{
}

} // verus!
