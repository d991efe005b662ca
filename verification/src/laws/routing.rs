//! Laws of routing: the category of an address, the route it takes, and what
//! it is reported as.

use crate::cache::{inserted, served, ResolveCache, RowModel};
use crate::classifier::{
    category_name, category_of, category_of_name, web_page_domains, UrlCategory,
};
use crate::custom::{
    doodstream_domains, is_voe, voe_domains, vowel_count, well_known_names, youtube_domains,
};
use crate::links::{url_parse, UrlModel};
use crate::resolver::{
    begun, directly_resolved, mime_of_path, reported, resolve_fault_text, verdict, ResolveError,
    ResolveFault, ResolveModel, ResolveResult, ResolveStep, RouteModel, Verdict,
};
use crate::text::{
    after_last, before_first, behind_last, ends_with, in_domain, in_domains, lemma_behind_last,
    lower,
};
use vstd::prelude::*;

verus! {

// ---------------------------------------------------------------------------
// Domains
// ---------------------------------------------------------------------------

/// Whether a host is a domain, or lies below it.
pub open spec fn covers(domain: Seq<char>, host: Seq<char>) -> bool {
    host == domain || exists|prefix: Seq<char>| host == #[trigger] (prefix + "."@ + domain)
}

/// Lying in a domain is being it, or ending with a dot and it.
pub proof fn law_domain_covers(host: Seq<char>, domain: Seq<char>)
    ensures
        in_domain(host, domain) <==> covers(domain, host),
{
    reveal_strlit(".");
    let dotted = seq!['.'] + domain;
    if ends_with(host, dotted) {
        let prefix = host.take(host.len() - dotted.len());
        let tail = host.subrange(host.len() - dotted.len(), host.len() as int);
        assert(host =~= prefix + tail);
        assert(dotted =~= "."@ + domain);
        assert(prefix + ("."@ + domain) =~= prefix + "."@ + domain);
    }
    if exists|prefix: Seq<char>| host == #[trigger] (prefix + "."@ + domain) {
        let prefix = choose|prefix: Seq<char>| host == #[trigger] (prefix + "."@ + domain);
        assert(host.subrange(host.len() - dotted.len(), host.len() as int) =~= dotted);
        assert(ends_with(host, dotted));
    }
}

/// The front ends of DoodStream.
pub open spec fn is_doodstream_front(d: Seq<char>) -> bool {
    ||| d == "playmogo.com"@
    ||| d == "doodstream.com"@
    ||| d == "dood.to"@
    ||| d == "dood.watch"@
    ||| d == "dood.la"@
    ||| d == "dood.ws"@
    ||| d == "doodstream.co"@
    ||| d == "dood.yt"@
    ||| d == "dood.re"@
    ||| d == "dood.pm"@
    ||| d == "dood.wf"@
    ||| d == "dood.cx"@
}

/// The canonical Voe domain and its unblock proxies.
pub open spec fn is_voe_front(d: Seq<char>) -> bool {
    ||| d == "voe.sx"@
    ||| d == "voe-unblock.com"@
    ||| d == "voeunblock.com"@
    ||| d == "voeunbl0ck.com"@
    ||| d == "voe-unblk.com"@
    ||| d == "voeunblk.com"@
    ||| d == "voeunblock2.com"@
}

/// The hosting sites whose addresses are pages, whatever their path.
pub open spec fn is_page_site(d: Seq<char>) -> bool {
    ||| d == "youtube.com"@
    ||| d == "www.youtube.com"@
    ||| d == "m.youtube.com"@
    ||| d == "youtu.be"@
    ||| d == "vimeo.com"@
    ||| d == "player.vimeo.com"@
    ||| d == "twitch.tv"@
    ||| d == "www.twitch.tv"@
    ||| d == "clips.twitch.tv"@
    ||| d == "dailymotion.com"@
    ||| d == "www.dailymotion.com"@
    ||| d == "facebook.com"@
    ||| d == "www.facebook.com"@
    ||| d == "instagram.com"@
    ||| d == "www.instagram.com"@
    ||| d == "twitter.com"@
    ||| d == "x.com"@
    ||| d == "www.x.com"@
    ||| d == "tiktok.com"@
    ||| d == "www.tiktok.com"@
    ||| d == "reddit.com"@
    ||| d == "www.reddit.com"@
    ||| d == "streamable.com"@
    ||| d == "voe.sx"@
    ||| d == "playmogo.com"@
    ||| d == "doodstream.com"@
    ||| d == "dood.to"@
    ||| d == "dood.watch"@
    ||| d == "dood.la"@
    ||| d == "dood.ws"@
}

/// The sites that no run-together name stands for.
pub open spec fn is_famous(name: Seq<char>) -> bool {
    ||| name == "google"@
    ||| name == "youtube"@
    ||| name == "facebook"@
    ||| name == "twitter"@
    ||| name == "instagram"@
    ||| name == "amazon"@
    ||| name == "microsoft"@
    ||| name == "apple"@
    ||| name == "netflix"@
    ||| name == "reddit"@
    ||| name == "twitch"@
    ||| name == "vimeo"@
    ||| name == "dailymotion"@
    ||| name == "tiktok"@
    ||| name == "pinterest"@
    ||| name == "tumblr"@
    ||| name == "linkedin"@
    ||| name == "whatsapp"@
    ||| name == "telegram"@
    ||| name == "discord"@
}

/// The endings of media files.
pub open spec fn is_media_ending(ext: Seq<char>) -> bool {
    ||| ext == "mp4"@
    ||| ext == "mkv"@
    ||| ext == "webm"@
    ||| ext == "avi"@
    ||| ext == "mov"@
    ||| ext == "flv"@
    ||| ext == "wmv"@
    ||| ext == "m4v"@
    ||| ext == "mp3"@
    ||| ext == "flac"@
    ||| ext == "ogg"@
    ||| ext == "opus"@
    ||| ext == "wav"@
    ||| ext == "aac"@
    ||| ext == "m4a"@
    ||| ext == "wma"@
    ||| ext == "ts"@
}

proof fn lemma_is_doodstream_front(host: Seq<char>)
    ensures
        in_domains(host, doodstream_domains()) <==> exists|d: Seq<char>| #[trigger]
            is_doodstream_front(d) && covers(d, host),
{
    let list = doodstream_domains();
    assert(list[0] == "playmogo.com"@ && is_doodstream_front("playmogo.com"@));
    assert(list[1] == "doodstream.com"@ && is_doodstream_front("doodstream.com"@));
    assert(list[2] == "dood.to"@ && is_doodstream_front("dood.to"@));
    assert(list[3] == "dood.watch"@ && is_doodstream_front("dood.watch"@));
    assert(list[4] == "dood.la"@ && is_doodstream_front("dood.la"@));
    assert(list[5] == "dood.ws"@ && is_doodstream_front("dood.ws"@));
    assert(list[6] == "doodstream.co"@ && is_doodstream_front("doodstream.co"@));
    assert(list[7] == "dood.yt"@ && is_doodstream_front("dood.yt"@));
    assert(list[8] == "dood.re"@ && is_doodstream_front("dood.re"@));
    assert(list[9] == "dood.pm"@ && is_doodstream_front("dood.pm"@));
    assert(list[10] == "dood.wf"@ && is_doodstream_front("dood.wf"@));
    assert(list[11] == "dood.cx"@ && is_doodstream_front("dood.cx"@));
    if in_domains(host, list) {
        let i = choose|i: int| 0 <= i < list.len() && in_domain(host, #[trigger] list[i]);
        law_domain_covers(host, list[i]);
        assert(is_doodstream_front(list[i]) && covers(list[i], host));
    }
    if exists|d: Seq<char>| #[trigger] is_doodstream_front(d) && covers(d, host) {
        let d = choose|d: Seq<char>| #[trigger] is_doodstream_front(d) && covers(d, host);
        let i = choose|i: int| 0 <= i < list.len() && #[trigger] list[i] == d;
        law_domain_covers(host, d);
        assert(in_domain(host, list[i]));
    }
}

proof fn lemma_is_voe_front(host: Seq<char>)
    ensures
        in_domains(host, voe_domains()) <==> exists|d: Seq<char>| #[trigger]
            is_voe_front(d) && covers(d, host),
{
    let list = voe_domains();
    assert(list[0] == "voe.sx"@ && is_voe_front("voe.sx"@));
    assert(list[1] == "voe-unblock.com"@ && is_voe_front("voe-unblock.com"@));
    assert(list[2] == "voeunblock.com"@ && is_voe_front("voeunblock.com"@));
    assert(list[3] == "voeunbl0ck.com"@ && is_voe_front("voeunbl0ck.com"@));
    assert(list[4] == "voe-unblk.com"@ && is_voe_front("voe-unblk.com"@));
    assert(list[5] == "voeunblk.com"@ && is_voe_front("voeunblk.com"@));
    assert(list[6] == "voeunblock2.com"@ && is_voe_front("voeunblock2.com"@));
    if in_domains(host, list) {
        let i = choose|i: int| 0 <= i < list.len() && in_domain(host, #[trigger] list[i]);
        law_domain_covers(host, list[i]);
        assert(is_voe_front(list[i]) && covers(list[i], host));
    }
    if exists|d: Seq<char>| #[trigger] is_voe_front(d) && covers(d, host) {
        let d = choose|d: Seq<char>| #[trigger] is_voe_front(d) && covers(d, host);
        let i = choose|i: int| 0 <= i < list.len() && #[trigger] list[i] == d;
        law_domain_covers(host, d);
        assert(in_domain(host, list[i]));
    }
}

proof fn lemma_is_page_site(host: Seq<char>)
    ensures
        in_domains(host, web_page_domains()) <==> exists|d: Seq<char>| #[trigger]
            is_page_site(d) && covers(d, host),
{
    let list = web_page_domains();
    assert(list[0] == "youtube.com"@ && is_page_site("youtube.com"@));
    assert(list[1] == "www.youtube.com"@ && is_page_site("www.youtube.com"@));
    assert(list[2] == "m.youtube.com"@ && is_page_site("m.youtube.com"@));
    assert(list[3] == "youtu.be"@ && is_page_site("youtu.be"@));
    assert(list[4] == "vimeo.com"@ && is_page_site("vimeo.com"@));
    assert(list[5] == "player.vimeo.com"@ && is_page_site("player.vimeo.com"@));
    assert(list[6] == "twitch.tv"@ && is_page_site("twitch.tv"@));
    assert(list[7] == "www.twitch.tv"@ && is_page_site("www.twitch.tv"@));
    assert(list[8] == "clips.twitch.tv"@ && is_page_site("clips.twitch.tv"@));
    assert(list[9] == "dailymotion.com"@ && is_page_site("dailymotion.com"@));
    assert(list[10] == "www.dailymotion.com"@ && is_page_site("www.dailymotion.com"@));
    assert(list[11] == "facebook.com"@ && is_page_site("facebook.com"@));
    assert(list[12] == "www.facebook.com"@ && is_page_site("www.facebook.com"@));
    assert(list[13] == "instagram.com"@ && is_page_site("instagram.com"@));
    assert(list[14] == "www.instagram.com"@ && is_page_site("www.instagram.com"@));
    assert(list[15] == "twitter.com"@ && is_page_site("twitter.com"@));
    assert(list[16] == "x.com"@ && is_page_site("x.com"@));
    assert(list[17] == "www.x.com"@ && is_page_site("www.x.com"@));
    assert(list[18] == "tiktok.com"@ && is_page_site("tiktok.com"@));
    assert(list[19] == "www.tiktok.com"@ && is_page_site("www.tiktok.com"@));
    assert(list[20] == "reddit.com"@ && is_page_site("reddit.com"@));
    assert(list[21] == "www.reddit.com"@ && is_page_site("www.reddit.com"@));
    assert(list[22] == "streamable.com"@ && is_page_site("streamable.com"@));
    assert(list[23] == "voe.sx"@ && is_page_site("voe.sx"@));
    assert(list[24] == "playmogo.com"@ && is_page_site("playmogo.com"@));
    assert(list[25] == "doodstream.com"@ && is_page_site("doodstream.com"@));
    assert(list[26] == "dood.to"@ && is_page_site("dood.to"@));
    assert(list[27] == "dood.watch"@ && is_page_site("dood.watch"@));
    assert(list[28] == "dood.la"@ && is_page_site("dood.la"@));
    assert(list[29] == "dood.ws"@ && is_page_site("dood.ws"@));
    if in_domains(host, list) {
        let i = choose|i: int| 0 <= i < list.len() && in_domain(host, #[trigger] list[i]);
        law_domain_covers(host, list[i]);
        assert(is_page_site(list[i]) && covers(list[i], host));
    }
    if exists|d: Seq<char>| #[trigger] is_page_site(d) && covers(d, host) {
        let d = choose|d: Seq<char>| #[trigger] is_page_site(d) && covers(d, host);
        let i = choose|i: int| 0 <= i < list.len() && #[trigger] list[i] == d;
        law_domain_covers(host, d);
        assert(in_domain(host, list[i]));
    }
}

proof fn lemma_media_ending(ext: Seq<char>)
    ensures
        crate::classifier::media_extensions().contains(ext) <==> is_media_ending(ext),
{
    let list = crate::classifier::media_extensions();
    assert(list[0] == "mp4"@);
    assert(list[1] == "mkv"@);
    assert(list[2] == "webm"@);
    assert(list[3] == "avi"@);
    assert(list[4] == "mov"@);
    assert(list[5] == "flv"@);
    assert(list[6] == "wmv"@);
    assert(list[7] == "m4v"@);
    assert(list[8] == "mp3"@);
    assert(list[9] == "flac"@);
    assert(list[10] == "ogg"@);
    assert(list[11] == "opus"@);
    assert(list[12] == "wav"@);
    assert(list[13] == "aac"@);
    assert(list[14] == "m4a"@);
    assert(list[15] == "wma"@);
    assert(list[16] == "ts"@);
}

proof fn lemma_famous(name: Seq<char>)
    ensures
        well_known_names().contains(name) <==> is_famous(name),
{
    let list = well_known_names();
    assert(list[0] == "google"@);
    assert(list[1] == "youtube"@);
    assert(list[2] == "facebook"@);
    assert(list[3] == "twitter"@);
    assert(list[4] == "instagram"@);
    assert(list[5] == "amazon"@);
    assert(list[6] == "microsoft"@);
    assert(list[7] == "apple"@);
    assert(list[8] == "netflix"@);
    assert(list[9] == "reddit"@);
    assert(list[10] == "twitch"@);
    assert(list[11] == "vimeo"@);
    assert(list[12] == "dailymotion"@);
    assert(list[13] == "tiktok"@);
    assert(list[14] == "pinterest"@);
    assert(list[15] == "tumblr"@);
    assert(list[16] == "linkedin"@);
    assert(list[17] == "whatsapp"@);
    assert(list[18] == "telegram"@);
    assert(list[19] == "discord"@);
}

// ---------------------------------------------------------------------------
// Categories
// ---------------------------------------------------------------------------

/// The number of vowels in a name.
pub open spec fn vowels(name: Seq<char>) -> nat {
    name.filter(|c: char| c == 'a' || c == 'e' || c == 'i' || c == 'o' || c == 'u').len()
}

proof fn lemma_vowels(name: Seq<char>, n: int)
    requires
        0 <= n <= name.len(),
    ensures
        vowel_count(name, n) == vowels(name.take(n)),
    decreases n,
{
    reveal(Seq::filter);
    if n > 0 {
        lemma_vowels(name, n - 1);
        assert(name.take(n).drop_last() =~= name.take(n - 1));
        assert(name.take(n).last() == name[n - 1]);
    }
}

/// Whether a name could be a rotating front end: 12 to 40 letters `a`..`z`, at
/// least a fifth of them vowels, and no famous site.
pub open spec fn is_rotating_name(name: Seq<char>) -> bool {
    &&& 12 <= name.len() <= 40
    &&& forall|i: int| 0 <= i < name.len() ==> 'a' <= #[trigger] name[i] <= 'z'
    &&& !is_famous(name)
    &&& 5 * vowels(name) >= name.len()
}

/// A host is taken for Voe's exactly where it lies in a listed domain, or is a
/// rotating name under `.com`; case makes no difference to either.
pub proof fn law_voe_hosts(host: Seq<char>)
    ensures
        is_voe(host) <==> (exists|d: Seq<char>| #[trigger]
            is_voe_front(d) && covers(d, lower(host))) || exists|name: Seq<char>|
            is_rotating_name(name) && lower(host) == #[trigger] (name + ".com"@),
{
    let h = lower(host);
    lemma_is_voe_front(h);
    reveal_strlit(".com");
    if ends_with(h, ".com"@) {
        let name = h.take(h.len() - 4);
        assert(h.subrange(h.len() - 4, h.len() as int) == ".com"@);
        assert(h =~= name + ".com"@);
        lemma_famous(name);
        lemma_vowels(name, name.len() as int);
        assert(name.take(name.len() as int) =~= name);
    }
    if exists|name: Seq<char>| is_rotating_name(name) && h == #[trigger] (name + ".com"@) {
        let name = choose|name: Seq<char>| is_rotating_name(name) && h == #[trigger] (name
            + ".com"@);
        assert(h.subrange(h.len() - 4, h.len() as int) =~= ".com"@);
        assert(ends_with(h, ".com"@));
        assert(h.take(h.len() - 4) =~= name);
        lemma_famous(name);
        lemma_vowels(name, name.len() as int);
        assert(name.take(name.len() as int) =~= name);
    }
}

/// Whether a host is one of a site whose addresses are pages.
pub open spec fn on_page_site(host: Seq<char>) -> bool {
    exists|d: Seq<char>| #[trigger] is_page_site(d) && covers(d, lower(host))
}

/// Onion addresses and magnet links are known by host and scheme alone; a
/// hosting site's address is a page, whatever its path ends with.
pub proof fn law_category_by_host(url: UrlModel)
    ensures
        category_of(url) == UrlCategory::Onion <==> url.host is Some && ends_with(
            url.host->0,
            ".onion"@,
        ),
        category_of(url) == UrlCategory::Magnet <==> url.scheme == "magnet"@ && !(url.host is Some
            && ends_with(url.host->0, ".onion"@)),
        url.host matches Some(host) ==> ((on_page_site(host) || is_voe(host)) && !ends_with(
            host,
            ".onion"@,
        ) && url.scheme != "magnet"@ ==> category_of(url) == UrlCategory::WebPage),
{
    if url.host is Some {
        lemma_is_page_site(lower(url.host->0));
    }
}

/// Whether an address is told by its path alone.
pub open spec fn told_by_path(url: UrlModel) -> bool {
    &&& url.scheme != "magnet"@
    &&& url.host matches Some(host) ==> !ends_with(host, ".onion"@) && !on_page_site(host)
        && !is_voe(host)
}

/// Other addresses go by the ending of their path, in either case: playlists,
/// DASH manifests, media files; and everything else is a page.
pub proof fn law_category_by_path(url: UrlModel)
    requires
        told_by_path(url),
    ensures
        ({
            let ext = after_last(lower(url.path), '.');
            &&& category_of(url) == UrlCategory::HlsManifest <==> ext == "m3u8"@
            &&& category_of(url) == UrlCategory::DashManifest <==> ext == "mpd"@
            &&& category_of(url) == UrlCategory::DirectMedia <==> is_media_ending(ext)
            &&& category_of(url) == UrlCategory::WebPage <==> ext != "m3u8"@ && ext != "mpd"@
                && !is_media_ending(ext)
        }),
{
    let ext = after_last(lower(url.path), '.');
    if url.host is Some {
        lemma_is_page_site(lower(url.host->0));
    }
    lemma_media_ending(ext);
    reveal_strlit("m3u8");
    reveal_strlit("mpd");
    reveal_strlit("mp4");
    reveal_strlit("mp3");
    reveal_strlit("mkv");
    reveal_strlit("mov");
    reveal_strlit("m4v");
    reveal_strlit("m4a");
    assert("m3u8"@.len() == 4 && "m3u8"@[1] == '3');
    assert("mpd"@.len() == 3 && "mpd"@[1] == 'p' && "mpd"@[2] == 'd');
    reveal_strlit("webm");
    reveal_strlit("flac");
    reveal_strlit("opus");
    assert("webm"@[0] == 'w' && "flac"@[0] == 'f' && "opus"@[0] == 'o');
    assert("mp4"@[2] == '4' && "mp3"@[2] == '3' && "mkv"@[1] == 'k' && "mov"@[1] == 'o');
    assert("m4v"@[1] == '4' && "m4a"@[1] == '4');
    lemma_short_endings();
}

proof fn lemma_short_endings()
    ensures
        "avi"@[0] == 'a' && "avi"@.len() == 3,
        "flv"@[0] == 'f' && "flv"@.len() == 3,
        "wmv"@[0] == 'w' && "wmv"@.len() == 3,
        "ogg"@[0] == 'o' && "ogg"@.len() == 3,
        "wav"@[0] == 'w' && "wav"@.len() == 3,
        "aac"@[0] == 'a' && "aac"@.len() == 3,
        "wma"@[0] == 'w' && "wma"@.len() == 3,
        "ts"@.len() == 2,
{
    reveal_strlit("avi");
    reveal_strlit("flv");
    reveal_strlit("wmv");
    reveal_strlit("ogg");
    reveal_strlit("wav");
    reveal_strlit("aac");
    reveal_strlit("wma");
    reveal_strlit("ts");
}

/// The ending of a path is what stands behind its last dot.
pub proof fn law_ending(path: Seq<char>, stem: Seq<char>, ext: Seq<char>)
    requires
        path == stem + "."@ + ext,
        forall|i: int| 0 <= i < ext.len() ==> #[trigger] ext[i] != '.',
    ensures
        after_last(path, '.') == ext,
{
    reveal_strlit(".");
    let k = behind_last(path, '.', path.len() as int);
    lemma_behind_last(path, '.', path.len() as int);
    assert(path[stem.len() as int] == '.');
    if k > stem.len() + 1 {
        assert(path[k - 1] == ext[k - 1 - stem.len() - 1]);
    }
    assert(k == stem.len() + 1);
    assert(path.skip(k) =~= ext);
}

/// The name of a category, which tells it from the others.
pub proof fn law_category_names(name: Seq<char>)
    ensures
        category_of_name(name) == UrlCategory::HlsManifest <==> name == "hls_manifest"@,
        category_of_name(name) == UrlCategory::DashManifest <==> name == "dash_manifest"@,
        category_of_name(name) == UrlCategory::WebPage <==> name == "web_page"@,
        category_of_name(name) == UrlCategory::Magnet <==> name == "magnet"@,
        category_of_name(name) == UrlCategory::Onion <==> name == "onion"@,
        category_name(UrlCategory::DirectMedia) == "direct_media"@,
{
    crate::classifier::lemma_category_name_round_trip(UrlCategory::DirectMedia);
    crate::classifier::lemma_category_name_round_trip(UrlCategory::HlsManifest);
    crate::classifier::lemma_category_name_round_trip(UrlCategory::DashManifest);
    crate::classifier::lemma_category_name_round_trip(UrlCategory::WebPage);
    crate::classifier::lemma_category_name_round_trip(UrlCategory::Magnet);
    crate::classifier::lemma_category_name_round_trip(UrlCategory::Onion);
}

// ---------------------------------------------------------------------------
// Routes
// ---------------------------------------------------------------------------

/// A page takes the Voe route exactly where its host is taken for Voe's, and
/// else the DoodStream route exactly where its host, in lowercase, lies in one
/// of the front-end domains; every other page is left to yt-dlp. The route
/// names the host.
pub proof fn law_page_routes(text: Seq<char>, url: UrlModel)
    requires
        category_of(url) == UrlCategory::WebPage,
    ensures
        url.host matches Some(host) ==> {
            &&& is_voe(host) ==> verdict(text, url) == Verdict::Fetch(RouteModel::Voe { host })
            &&& !is_voe(host) ==> (verdict(text, url) == Verdict::Fetch(
                RouteModel::DoodStream { host },
            ) <==> exists|d: Seq<char>| #[trigger]
                is_doodstream_front(d) && covers(d, lower(host)))
            &&& !is_voe(host) && !(exists|d: Seq<char>| #[trigger]
                is_doodstream_front(d) && covers(d, lower(host))) ==> verdict(text, url)
                == Verdict::Fetch(RouteModel::Ytdlp { key: host, onion: false })
        },
        url.host is None ==> verdict(text, url) == Verdict::Fetch(
            RouteModel::Ytdlp { key: "unknown"@, onion: false },
        ),
{
    if url.host is Some {
        lemma_is_doodstream_front(lower(url.host->0));
    }
}

/// An onion address is left to yt-dlp over Tor, isolated by its host.
pub proof fn law_onion_route(text: Seq<char>, url: UrlModel, host: Seq<char>)
    requires
        url.host == Some(host),
        ends_with(host, ".onion"@),
    ensures
        verdict(text, url) == Verdict::Fetch(RouteModel::Ytdlp { key: host, onion: true }),
{
}

/// Media and manifests are handed through as they are, with their MIME type and
/// nothing else; nothing is fetched for them.
pub proof fn law_handed_through(text: Seq<char>, url: UrlModel)
    ensures
        category_of(url) == UrlCategory::DirectMedia ==> (verdict(text, url) matches Verdict::Direct(
            model,
        ) && is_bare(model, text, UrlCategory::DirectMedia) && model.mime_type == mime_of_path(
            text,
        )),
        category_of(url) == UrlCategory::HlsManifest ==> (verdict(text, url) matches Verdict::Direct(
            model,
        ) && is_bare(model, text, UrlCategory::HlsManifest) && model.mime_type == Some(
            "application/vnd.apple.mpegurl"@,
        )),
        category_of(url) == UrlCategory::DashManifest ==> (verdict(
            text,
            url,
        ) matches Verdict::Direct(model) && is_bare(model, text, UrlCategory::DashManifest)
            && model.mime_type == Some("application/dash+xml"@)),
{
}

/// Whether a result says no more than address and category.
pub open spec fn is_bare(model: ResolveModel, url: Seq<char>, category: UrlCategory) -> bool {
    &&& model.source_url == url
    &&& model.direct_url == url
    &&& model.category == category
    &&& !model.used_tor
    &&& model.audio_url is None
    &&& model.title is None
    &&& model.duration is None
    &&& model.thumbnail is None
    &&& model.content_length is None
    &&& model.cookies.len() == 0
    &&& model.subtitle_tracks.len() == 0
}

/// A fetched result is reported with nothing changed but its category, which
/// is that of what was submitted; an onion address also counts as fetched over
/// Tor.
pub proof fn law_reported_unchanged(route: RouteModel, found: ResolveModel)
    ensures
        ({
            let out = reported(route, found);
            let onion = route matches RouteModel::Ytdlp { onion: true, .. };
            &&& out.category == if onion {
                UrlCategory::Onion
            } else {
                UrlCategory::WebPage
            }
            &&& out.used_tor == (onion || found.used_tor)
            &&& ResolveModel { category: found.category, used_tor: found.used_tor, ..out } == found
        }),
{
}

// ---------------------------------------------------------------------------
// MIME types
// ---------------------------------------------------------------------------

/// The MIME type of an ending.
pub open spec fn has_type(ext: Seq<char>, mime: Seq<char>) -> bool {
    ||| ext == "mp4"@ && mime == "video/mp4"@
    ||| ext == "webm"@ && mime == "video/webm"@
    ||| ext == "mkv"@ && mime == "video/x-matroska"@
    ||| ext == "avi"@ && mime == "video/x-msvideo"@
    ||| ext == "mov"@ && mime == "video/quicktime"@
    ||| ext == "mp3"@ && mime == "audio/mpeg"@
    ||| ext == "flac"@ && mime == "audio/flac"@
    ||| ext == "ogg"@ && mime == "audio/ogg"@
    ||| ext == "m4a"@ && mime == "audio/mp4"@
    ||| ext == "ts"@ && mime == "video/mp2t"@
    ||| ext == "m4s"@ && mime == "video/iso.segment"@
}

/// The MIME type of a path goes by its ending, before any query and in either
/// case; unknown endings have none.
pub proof fn law_mime_by_ending(path: Seq<char>, mime: Seq<char>)
    ensures
        mime_of_path(path) == Some(mime) <==> has_type(
            after_last(lower(before_first(path, '?')), '.'),
            mime,
        ),
{
    reveal_strlit("mp4");
    reveal_strlit("webm");
    reveal_strlit("mkv");
    reveal_strlit("avi");
    reveal_strlit("mov");
    reveal_strlit("mp3");
    reveal_strlit("flac");
    reveal_strlit("ogg");
    reveal_strlit("m4a");
    reveal_strlit("ts");
    reveal_strlit("m4s");
    assert("mp4"@[2] == '4' && "mp3"@[2] == '3' && "mp4"@[1] == 'p' && "mp3"@[1] == 'p');
    assert("mp4"@[0] == 'm' && "mp3"@[0] == 'm' && "mkv"@[1] == 'k' && "mov"@[1] == 'o');
    assert("m4a"@[1] == '4' && "m4a"@[2] == 'a' && "m4s"@[1] == '4' && "m4s"@[2] == 's');
    assert("avi"@[0] == 'a' && "ogg"@[0] == 'o' && "webm"@[0] == 'w' && "flac"@[0] == 'f');
    assert("mkv"@[0] == 'm' && "mov"@[0] == 'm' && "m4a"@[0] == 'm' && "m4s"@[0] == 'm');
    assert("ts"@.len() == 2);
}

// ---------------------------------------------------------------------------
// Resolving
// ---------------------------------------------------------------------------

/// What cannot be parsed is refused, and nothing is stored.
pub proof fn law_unparsed_refused(
    r: Result<ResolveStep, ResolveError>,
    before: ResolveCache,
    after: Seq<RowModel>,
    url: Seq<char>,
    now: i64,
    message: Seq<char>,
)
    requires
        begun(r, before, after, url, now),
        url_parse(url) == Err::<UrlModel, Seq<char>>(message),
    ensures
        r matches Err(e) && e@ == ResolveFault::InvalidUrl(message),
        after == before@,
{
}

/// What the cache serves is the answer, and the cache stays as it is.
pub proof fn law_cache_answers(
    r: Result<ResolveStep, ResolveError>,
    before: ResolveCache,
    after: Seq<RowModel>,
    url: Seq<char>,
    now: i64,
    hit: ResolveModel,
)
    requires
        begun(r, before, after, url, now),
        url_parse(url) is Ok,
        served(before@, url, before.cutoff(now)) == Some(hit),
    ensures
        r matches Ok(ResolveStep::Cached(result)) && result@ == hit,
        after == before@,
{
}

/// Without a cached answer the verdict on the address decides: what is handed
/// through is stored, a fetch and a refusal leave the cache as it is.
pub proof fn law_verdict_decides(
    r: Result<ResolveStep, ResolveError>,
    before: ResolveCache,
    after: Seq<RowModel>,
    url: Seq<char>,
    now: i64,
    parts: UrlModel,
)
    requires
        begun(r, before, after, url, now),
        url_parse(url) == Ok::<UrlModel, Seq<char>>(parts),
        served(before@, url, before.cutoff(now)) is None,
    ensures
        verdict(url, parts) matches Verdict::Direct(model) ==> {
            &&& r matches Ok(ResolveStep::Done(result)) && result@ == model
            &&& after == inserted(before@, model, now)
        },
        verdict(url, parts) matches Verdict::Fetch(route) ==> {
            &&& r matches Ok(ResolveStep::Fetch(chosen)) && chosen@ == route
            &&& after == before@
        },
        verdict(url, parts) matches Verdict::Refused(fault) ==> {
            &&& r matches Err(e) && e@ == fault
            &&& after == before@
        },
{
}

/// Resolving a direct link refuses everything else, answers from the cache
/// where it can, and stores what it hands through.
pub proof fn law_direct_only(
    r: Result<ResolveResult, ResolveError>,
    before: ResolveCache,
    after: Seq<RowModel>,
    url: Seq<char>,
    now: i64,
    parts: UrlModel,
)
    requires
        directly_resolved(r, before, after, url, now),
        url_parse(url) == Ok::<UrlModel, Seq<char>>(parts),
    ensures
        category_of(parts) != UrlCategory::DirectMedia ==> (r matches Err(e) && e@
            == ResolveFault::NoMediaFound(url)) && after == before@,
        category_of(parts) == UrlCategory::DirectMedia ==> r is Ok,
        category_of(parts) == UrlCategory::DirectMedia && served(
            before@,
            url,
            before.cutoff(now),
        ) is Some ==> r->Ok_0@ == served(before@, url, before.cutoff(now))->0 && after == before@,
        category_of(parts) == UrlCategory::DirectMedia && served(
            before@,
            url,
            before.cutoff(now),
        ) is None ==> is_bare(r->Ok_0@, url, UrlCategory::DirectMedia) && r->Ok_0@.mime_type
            == mime_of_path(url) && after == inserted(before@, r->Ok_0@, now),
{
}

/// How errors read: what kind of failure, and what it was about.
pub proof fn law_errors_read(about: Seq<char>)
    ensures
        resolve_fault_text(ResolveFault::InvalidUrl(about)) == "invalid URL: "@ + about,
        resolve_fault_text(ResolveFault::NoMediaFound(about)) == "no media found at "@ + about,
        resolve_fault_text(ResolveFault::Network(about)) == "network error: "@ + about,
        resolve_fault_text(ResolveFault::TorUnavailable(about)) == "Tor proxy unavailable: "@
            + about,
{
}

/// The domains of YouTube.
pub open spec fn is_youtube_site(d: Seq<char>) -> bool {
    ||| d == "youtube.com"@
    ||| d == "www.youtube.com"@
    ||| d == "m.youtube.com"@
    ||| d == "youtu.be"@
    ||| d == "youtube-nocookie.com"@
    ||| d == "www.youtube-nocookie.com"@
}

/// A host is YouTube's exactly where it lies in one of the domains.
pub proof fn law_youtube_hosts(host: Seq<char>)
    ensures
        in_domains(host, youtube_domains()) <==> exists|d: Seq<char>| #[trigger]
            is_youtube_site(d) && covers(d, host),
{
    let list = youtube_domains();
    assert(list[0] == "youtube.com"@ && is_youtube_site("youtube.com"@));
    assert(list[1] == "www.youtube.com"@ && is_youtube_site("www.youtube.com"@));
    assert(list[2] == "m.youtube.com"@ && is_youtube_site("m.youtube.com"@));
    assert(list[3] == "youtu.be"@ && is_youtube_site("youtu.be"@));
    assert(list[4] == "youtube-nocookie.com"@ && is_youtube_site("youtube-nocookie.com"@));
    assert(list[5] == "www.youtube-nocookie.com"@ && is_youtube_site("www.youtube-nocookie.com"@));
    if in_domains(host, list) {
        let i = choose|i: int| 0 <= i < list.len() && in_domain(host, #[trigger] list[i]);
        law_domain_covers(host, list[i]);
        assert(is_youtube_site(list[i]) && covers(list[i], host));
    }
    if exists|d: Seq<char>| #[trigger] is_youtube_site(d) && covers(d, host) {
        let d = choose|d: Seq<char>| #[trigger] is_youtube_site(d) && covers(d, host);
        let i = choose|i: int| 0 <= i < list.len() && #[trigger] list[i] == d;
        law_domain_covers(host, d);
        assert(in_domain(host, list[i]));
    }
}

/// Resolving a direct link refuses what cannot be parsed, and stores nothing.
pub proof fn law_direct_unparsed(
    r: Result<ResolveResult, ResolveError>,
    before: ResolveCache,
    after: Seq<RowModel>,
    url: Seq<char>,
    now: i64,
    message: Seq<char>,
)
    requires
        directly_resolved(r, before, after, url, now),
        url_parse(url) == Err::<UrlModel, Seq<char>>(message),
    ensures
        r matches Err(e) && e@ == ResolveFault::InvalidUrl(message),
        after == before@,
{
}

/// What categories are called.
pub proof fn law_categories_called()
    ensures
        category_name(UrlCategory::DirectMedia) == "direct_media"@,
        category_name(UrlCategory::HlsManifest) == "hls_manifest"@,
        category_name(UrlCategory::DashManifest) == "dash_manifest"@,
        category_name(UrlCategory::WebPage) == "web_page"@,
        category_name(UrlCategory::Magnet) == "magnet"@,
        category_name(UrlCategory::Onion) == "onion"@,
{
}

} // verus!
