//! Laws of link extraction: which quality level is taken, which links count,
//! and which rule of a provider wins.

use crate::deobfuscation::{
    best_ranked, buildable, built, captured, content, first_filled, first_present, has_rq, is_bait,
    is_hls, lemma_best_ranked, lemma_winning_rule_first, picked, quality_links, quality_rank,
    rule_link, value_link, winning_rule, with_rq,
};
use crate::json::{filled_member, member, Tree};
use crate::links::url_parse;
use crate::markup::{element_attributes, element_texts};
use crate::media::{
    cdn_speed, chosen_level, decoy, fastest, lemma_chosen_level, link_in_text, m3u8_in_text,
    media_link, mp4_in_text, open_link, speed_or_zero, sustainable,
};
use crate::patterns::{every_capture, first_capture, regex_valid};
use crate::provider::{ContentExtraction, DeobfuscationStep as StepDef, UrlExtractionRule};
use crate::text::{
    all_digits, before_first, char_index, contains, decimal_value, find, lemma_char_index,
    lemma_find_from, lower, occurs_at, trim,
};
use vstd::prelude::*;

verus! {

// ---------------------------------------------------------------------------
// Preference and rate limits
// ---------------------------------------------------------------------------

/// Whether a quality label is preferred to another: 720, 480, 360, 240, 1080,
/// and then any other.
pub open spec fn preferred(a: Seq<char>, b: Seq<char>) -> bool {
    ||| a == "720"@ && b != "720"@
    ||| a == "480"@ && b != "720"@ && b != "480"@
    ||| a == "360"@ && (b == "240"@ || b == "1080"@ || unlisted(b))
    ||| a == "240"@ && (b == "1080"@ || unlisted(b))
    ||| a == "1080"@ && unlisted(b)
}

/// Whether a quality label is none of those known.
pub open spec fn unlisted(label: Seq<char>) -> bool {
    label != "720"@ && label != "480"@ && label != "360"@ && label != "240"@ && label != "1080"@
}

proof fn lemma_labels_differ()
    ensures
        "720"@ != "480"@,
        "720"@ != "360"@,
        "720"@ != "240"@,
        "720"@ != "1080"@,
        "480"@ != "360"@,
        "480"@ != "240"@,
        "480"@ != "1080"@,
        "360"@ != "240"@,
        "360"@ != "1080"@,
        "240"@ != "1080"@,
{
    reveal_strlit("720");
    reveal_strlit("480");
    reveal_strlit("360");
    reveal_strlit("240");
    reveal_strlit("1080");
    assert("720"@[0] == '7');
    assert("480"@[0] == '4');
    assert("360"@[0] == '3');
    assert("240"@[0] == '2');
    assert("1080"@[0] == '1');
}

/// Ranks follow the preference among labels.
pub proof fn law_rank_is_preference(a: Seq<char>, b: Seq<char>)
    ensures
        quality_rank(a) < quality_rank(b) <==> preferred(a, b),
{
    lemma_labels_differ();
}

/// A level is sustainable where the CDN states no limit, or one of at least
/// 400, 800, 1500, 3000 and 6000 kbps for 240, 360, 480, 720 and 1080 lines.
pub proof fn law_sustainable(label: Seq<char>, url: Seq<char>)
    ensures
        cdn_speed(url) is None ==> sustainable((label, url)),
        unlisted(label) ==> sustainable((label, url)),
        cdn_speed(url) matches Some(speed) ==> {
            &&& label == "240"@ ==> (sustainable((label, url)) <==> speed >= 400)
            &&& label == "360"@ ==> (sustainable((label, url)) <==> speed >= 800)
            &&& label == "480"@ ==> (sustainable((label, url)) <==> speed >= 1500)
            &&& label == "720"@ ==> (sustainable((label, url)) <==> speed >= 3000)
            &&& label == "1080"@ ==> (sustainable((label, url)) <==> speed >= 6000)
        },
{
    lemma_labels_differ();
}

/// The speed limit of a link is the number behind the first `&sp=`, up to the
/// next parameter or the end; where there is none, that behind `?sp=`.
pub proof fn law_speed_read(url: Seq<char>, k: int, digits: Seq<char>)
    requires
        find(url, "&sp="@) == Some(k) || (find(url, "&sp="@) is None && find(url, "?sp="@)
            == Some(k)),
        digits.len() > 0,
        all_digits(digits),
        decimal_value(digits) <= u64::MAX,
        k + 4 + digits.len() <= url.len(),
        url.subrange(k + 4, k + 4 + digits.len()) == digits,
        k + 4 + digits.len() == url.len() || url[k + 4 + digits.len()] == '&',
    ensures
        cdn_speed(url) == Some(decimal_value(digits)),
        !sustainable(("1080"@, url)) <==> decimal_value(digits) < 6000,
{
    reveal_strlit("&sp=");
    reveal_strlit("?sp=");
    lemma_find_from(url, "&sp="@, 0);
    lemma_find_from(url, "?sp="@, 0);
    let rest = url.skip(k + 4);
    lemma_char_index(rest, '&', 0);
    let n = char_index(rest, '&', 0);
    assert forall|j: int| 0 <= j < digits.len() implies rest[j] == digits[j] && rest[j] != '&' by {
        assert(digits[j] == url.subrange(k + 4, k + 4 + digits.len())[j]);
        assert(crate::text::is_digit(digits[j]));
    }
    if n < digits.len() {
        assert(rest[n] != '&');
    }
    if digits.len() < rest.len() {
        assert(rest[digits.len() as int] == '&');
    }
    assert(n == digits.len());
    assert(before_first(rest, '&') =~= digits);
    assert(crate::text::is_digit(digits[0]));
    law_sustainable("1080"@, url);
}

/// A link without an `sp` parameter has no speed limit.
pub proof fn law_unlimited(url: Seq<char>)
    requires
        !contains(url, "&sp="@),
        !contains(url, "?sp="@),
    ensures
        cdn_speed(url) is None,
{
    lemma_find_from(url, "&sp="@, 0);
    lemma_find_from(url, "?sp="@, 0);
}

/// The level that is chosen: where some are sustainable, a sustainable one to
/// which none of them is preferred, and the first such; else one with the
/// highest limit, to which none with the same limit is preferred.
pub proof fn law_level_choice(links: Seq<(Seq<char>, Seq<char>)>, j: int)
    requires
        0 <= j < links.len(),
    ensures
        0 <= chosen_level(links) < links.len(),
        ({
            let k = chosen_level(links);
            &&& sustainable(links[j]) ==> sustainable(links[k]) && !preferred(
                links[j].0,
                links[k].0,
            )
            &&& sustainable(links[j]) && j < k ==> preferred(links[k].0, links[j].0)
            &&& !sustainable(links[k]) ==> speed_or_zero(links[j].1) <= speed_or_zero(links[k].1)
            &&& !sustainable(links[k]) && speed_or_zero(links[j].1) == speed_or_zero(links[k].1)
                ==> !preferred(links[j].0, links[k].0)
        }),
{
    lemma_chosen_level(links);
    let k = chosen_level(links);
    lemma_sustained(links, links.len() as int);
    lemma_fastest_tie(links, links.len() as int);
    law_rank_is_preference(links[j].0, links[k].0);
    law_rank_is_preference(links[k].0, links[j].0);
}

proof fn lemma_sustained(links: Seq<(Seq<char>, Seq<char>)>, n: int)
    requires
        0 <= n <= links.len(),
    ensures
        match crate::media::best_sustained(links, n) {
            Some(k) => {
                &&& 0 <= k < n
                &&& sustainable(links[k])
                &&& forall|j: int|
                    0 <= j < n && sustainable(#[trigger] links[j]) ==> quality_rank(links[k].0)
                        <= quality_rank(links[j].0)
                &&& forall|j: int|
                    0 <= j < k && sustainable(#[trigger] links[j]) ==> quality_rank(links[k].0)
                        < quality_rank(links[j].0)
            },
            None => forall|j: int| 0 <= j < n ==> !sustainable(#[trigger] links[j]),
        },
    decreases n,
{
    if n > 0 {
        lemma_sustained(links, n - 1);
    }
}

proof fn lemma_fastest_tie(links: Seq<(Seq<char>, Seq<char>)>, n: int)
    requires
        1 <= n <= links.len(),
    ensures
        0 <= fastest(links, n) < n,
        forall|j: int|
            0 <= j < n ==> {
                let best = speed_or_zero(links[fastest(links, n)].1);
                let speed = speed_or_zero((#[trigger] links[j]).1);
                &&& speed <= best
                &&& speed == best ==> quality_rank(links[fastest(links, n)].0) <= quality_rank(
                    links[j].0,
                )
            },
    decreases n,
{
    if n > 1 {
        lemma_fastest_tie(links, n - 1);
    }
}

/// Of an unlimited link labelled 480 and others labelled 360, 240, 1080 or
/// anything unknown, one labelled 480 is chosen.
pub proof fn law_sd_before_lower(links: Seq<(Seq<char>, Seq<char>)>, j: int)
    requires
        0 <= j < links.len(),
        links[j].0 == "480"@,
        cdn_speed(links[j].1) is None,
        forall|i: int| 0 <= i < links.len() ==> (#[trigger] links[i]).0 != "720"@,
    ensures
        0 <= chosen_level(links) < links.len(),
        links[chosen_level(links)].0 == "480"@,
{
    law_sustainable(links[j].0, links[j].1);
    law_level_choice(links, j);
    assert(links[chosen_level(links)].0 != "720"@);
    assert(links[j] == (links[j].0, links[j].1));
}

// ---------------------------------------------------------------------------
// Links in values
// ---------------------------------------------------------------------------

/// Whether a member of an object is a level with a link of the wanted sort.
pub open spec fn is_level(
    field: (Seq<char>, Tree),
    playlist: bool,
    domains: Seq<Seq<char>>,
    filenames: Seq<Seq<char>>,
) -> bool {
    &&& field.1 matches Tree::Text(url)
    &&& url.len() > 0
    &&& !is_bait(url, domains, filenames)
    &&& contains(lower(url), ".m3u8"@) == playlist
}

proof fn lemma_levels(
    fields: Seq<(Seq<char>, Tree)>,
    n: int,
    playlist: bool,
    domains: Seq<Seq<char>>,
    filenames: Seq<Seq<char>>,
)
    requires
        0 <= n <= fields.len(),
    ensures
        ({
            let links = quality_links(fields, n, playlist, domains, filenames);
            &&& forall|i: int|
                0 <= i < links.len() ==> exists|j: int|
                    0 <= j < n && fields[j] == ((#[trigger] links[i]).0, Tree::Text(links[i].1))
                        && is_level(#[trigger] fields[j], playlist, domains, filenames)
            &&& forall|j: int|
                0 <= j < n && is_level(#[trigger] fields[j], playlist, domains, filenames)
                    ==> links.contains((fields[j].0, fields[j].1->Text_0))
        }),
    decreases n,
{
    let links = quality_links(fields, n, playlist, domains, filenames);
    if n > 0 {
        lemma_levels(fields, n - 1, playlist, domains, filenames);
        let before = quality_links(fields, n - 1, playlist, domains, filenames);
        assert forall|i: int| 0 <= i < links.len() implies exists|j: int|
            0 <= j < n && fields[j] == ((#[trigger] links[i]).0, Tree::Text(links[i].1))
                && is_level(#[trigger] fields[j], playlist, domains, filenames) by {
            if i < before.len() {
                assert(links[i] == before[i]);
                let j = choose|j: int|
                    0 <= j < n - 1 && fields[j] == (before[i].0, Tree::Text(before[i].1))
                        && is_level(#[trigger] fields[j], playlist, domains, filenames);
                assert(is_level(fields[j], playlist, domains, filenames));
            } else {
                assert(is_level(fields[n - 1], playlist, domains, filenames));
            }
        }
        assert forall|j: int|
            0 <= j < n && is_level(
                #[trigger] fields[j],
                playlist,
                domains,
                filenames,
            ) implies links.contains((fields[j].0, fields[j].1->Text_0)) by {
            if j < n - 1 {
                assert(before.contains((fields[j].0, fields[j].1->Text_0)));
                let i = choose|i: int|
                    0 <= i < before.len() && before[i] == (fields[j].0, fields[j].1->Text_0);
                assert(links[i] == before[i]);
            } else {
                assert(links[links.len() - 1] == (fields[j].0, fields[j].1->Text_0));
            }
        }
    }
}

/// Whether an object's level is the one to play among those of its sort: no
/// sustainable one is preferred to it, and where none is sustainable, none has
/// a higher limit.
pub open spec fn is_best_level(
    fields: Seq<(Seq<char>, Tree)>,
    k: int,
    playlist: bool,
    domains: Seq<Seq<char>>,
    filenames: Seq<Seq<char>>,
) -> bool {
    &&& 0 <= k < fields.len()
    &&& is_level(fields[k], playlist, domains, filenames)
    &&& forall|j: int|
        0 <= j < fields.len() && is_level(#[trigger] fields[j], playlist, domains, filenames) ==> {
            let link = (fields[k].0, fields[k].1->Text_0);
            let other = (fields[j].0, fields[j].1->Text_0);
            &&& sustainable(other) ==> sustainable(link) && !preferred(other.0, link.0)
            &&& !sustainable(link) ==> speed_or_zero(other.1) <= speed_or_zero(link.1)
        }
}

proof fn lemma_best_level(
    fields: Seq<(Seq<char>, Tree)>,
    playlist: bool,
    domains: Seq<Seq<char>>,
    filenames: Seq<Seq<char>>,
) -> (k: int)
    requires
        quality_links(fields, fields.len() as int, playlist, domains, filenames).len() > 0,
    ensures
        is_best_level(fields, k, playlist, domains, filenames),
        ({
            let links = quality_links(fields, fields.len() as int, playlist, domains, filenames);
            fields[k].1 == Tree::Text(links[chosen_level(links)].1)
        }),
{
    let n = fields.len() as int;
    let links = quality_links(fields, n, playlist, domains, filenames);
    lemma_levels(fields, n, playlist, domains, filenames);
    lemma_chosen_level(links);
    let c = chosen_level(links);
    let k = choose|k: int|
        0 <= k < n && fields[k] == (links[c].0, Tree::Text(links[c].1)) && is_level(
            #[trigger] fields[k],
            playlist,
            domains,
            filenames,
        );
    let link = (fields[k].0, fields[k].1->Text_0);
    assert(link == links[c]);
    assert forall|j: int|
        0 <= j < n && is_level(#[trigger] fields[j], playlist, domains, filenames) implies {
        let other = (fields[j].0, fields[j].1->Text_0);
        &&& sustainable(other) ==> sustainable(link) && !preferred(other.0, link.0)
        &&& !sustainable(link) ==> speed_or_zero(other.1) <= speed_or_zero(link.1)
    } by {
        let other = (fields[j].0, fields[j].1->Text_0);
        assert(links.contains(other));
        let i = choose|i: int| 0 <= i < links.len() && links[i] == other;
        law_level_choice(links, i);
    }
    k
}

/// What a rule takes from an object: where MP4 is preferred, the best of the
/// levels that are no playlists, and nothing without one; else the best
/// playlist, or the best other level where there is no playlist.
pub proof fn law_object_level(
    fields: Seq<(Seq<char>, Tree)>,
    prefer_mp4: bool,
    domains: Seq<Seq<char>>,
    filenames: Seq<Seq<char>>,
)
    ensures
        match value_link(Tree::Object(fields), prefer_mp4, domains, filenames) {
            Some(url) => exists|k: int, playlist: bool| #[trigger]
                is_best_level(fields, k, playlist, domains, filenames) && fields[k].1 == Tree::Text(
                    url,
                ) && (prefer_mp4 ==> !playlist) && (!prefer_mp4 && !playlist ==> forall|j: int|
                    0 <= j < fields.len() ==> !is_level(
                        #[trigger] fields[j],
                        true,
                        domains,
                        filenames,
                    )),
            None => forall|j: int|
                0 <= j < fields.len() ==> !is_level(
                    #[trigger] fields[j],
                    false,
                    domains,
                    filenames,
                ) && (prefer_mp4 || !is_level(fields[j], true, domains, filenames)),
        },
{
    let n = fields.len() as int;
    let mp4 = quality_links(fields, n, false, domains, filenames);
    let hls = quality_links(fields, n, true, domains, filenames);
    lemma_levels(fields, n, false, domains, filenames);
    lemma_levels(fields, n, true, domains, filenames);
    if mp4.len() > 0 {
        let k = lemma_best_level(fields, false, domains, filenames);
        assert(is_best_level(fields, k, false, domains, filenames));
    }
    if hls.len() > 0 {
        let k = lemma_best_level(fields, true, domains, filenames);
        assert(is_best_level(fields, k, true, domains, filenames));
    }
}

/// A text that is not empty is a rule's link as it is, unless it is a decoy,
/// or a playlist where MP4 is preferred; other values have none.
pub proof fn law_text_link(
    value: Tree,
    prefer_mp4: bool,
    domains: Seq<Seq<char>>,
    filenames: Seq<Seq<char>>,
)
    ensures
        value matches Tree::Text(url) ==> {
            let out = value_link(value, prefer_mp4, domains, filenames);
            &&& out is Some <==> url.len() > 0 && !is_bait(url, domains, filenames) && !(prefer_mp4
                && contains(lower(url), ".m3u8"@))
            &&& out is Some ==> out == Some(url)
        },
        !(value is Text) && !(value is Object) ==> value_link(value, prefer_mp4, domains, filenames)
            is None && media_link(value) is None,
{
}

/// What the Voe resolver takes from a value: a text as it is, else the best
/// level that is no playlist, else the playlist whose label no other's is
/// preferred to.
pub proof fn law_media_level(value: Tree)
    ensures
        value matches Tree::Text(url) ==> media_link(value) == if url.len() > 0 {
            Some(url)
        } else {
            None
        },
        value matches Tree::Object(fields) ==> match media_link(value) {
            Some(url) => {
                ||| exists|k: int| #[trigger]
                    is_best_level(fields, k, false, Seq::empty(), Seq::empty()) && fields[k].1
                        == Tree::Text(url)
                ||| exists|k: int| #[trigger]
                    is_top_playlist(fields, k) && fields[k].1 == Tree::Text(url)
            },
            None => forall|j: int|
                0 <= j < fields.len() ==> !is_level(
                    #[trigger] fields[j],
                    false,
                    Seq::empty(),
                    Seq::empty(),
                ) && !is_level(fields[j], true, Seq::empty(), Seq::empty()),
        },
{
    if let Tree::Object(fields) = value {
        let n = fields.len() as int;
        let none: Seq<Seq<char>> = Seq::empty();
        let mp4 = quality_links(fields, n, false, none, none);
        let hls = quality_links(fields, n, true, none, none);
        lemma_levels(fields, n, false, none, none);
        lemma_levels(fields, n, true, none, none);
        if mp4.len() > 0 {
            let k = lemma_best_level(fields, false, none, none);
            assert(is_best_level(fields, k, false, none, none));
        } else if hls.len() > 0 {
            let c = best_ranked(hls, hls.len() as int);
            lemma_best_ranked(hls, hls.len() as int);
            let k = choose|k: int|
                0 <= k < n && fields[k] == (hls[c].0, Tree::Text(hls[c].1)) && is_level(
                    #[trigger] fields[k],
                    true,
                    none,
                    none,
                );
            assert forall|j: int|
                0 <= j < n && is_level(#[trigger] fields[j], true, none, none) implies !preferred(
                fields[j].0,
                fields[k].0,
            ) by {
                let i = choose|i: int|
                    0 <= i < hls.len() && hls[i] == (fields[j].0, fields[j].1->Text_0);
                law_rank_is_preference(hls[i].0, hls[c].0);
            }
            assert forall|j: int| 0 <= j < n implies !is_level(
                #[trigger] fields[j],
                false,
                none,
                none,
            ) by {
                if is_level(fields[j], false, none, none) {
                    assert(mp4.contains((fields[j].0, fields[j].1->Text_0)));
                }
            }
            assert(is_top_playlist(fields, k));
        }
    }
}

/// Whether a level is a playlist of an object without other links, and no
/// other label is preferred to its own.
pub open spec fn is_top_playlist(fields: Seq<(Seq<char>, Tree)>, k: int) -> bool {
    &&& 0 <= k < fields.len()
    &&& is_level(fields[k], true, Seq::empty(), Seq::empty())
    &&& forall|j: int|
        0 <= j < fields.len() ==> {
            &&& !is_level(#[trigger] fields[j], false, Seq::empty(), Seq::empty())
            &&& is_level(fields[j], true, Seq::empty(), Seq::empty()) ==> !preferred(
                fields[j].0,
                fields[k].0,
            )
        }
}

// ---------------------------------------------------------------------------
// Playlists, tokens and decoys
// ---------------------------------------------------------------------------

/// A link is a playlist exactly where `.m3u8` stands in it, in either case.
pub proof fn law_playlist(url: Seq<char>)
    ensures
        is_hls(url) <==> exists|i: int| occurs_at(lower(url), ".m3u8"@, i),
{
}

/// A token is appended once, as the first or a further parameter.
pub proof fn law_token_appended(url: Seq<char>, token: Seq<char>)
    ensures
        has_rq(url) <==> contains(url, "&rq="@) || contains(url, "?rq="@),
        has_rq(url) || token.len() == 0 ==> with_rq(url, token) == url,
        !has_rq(url) && token.len() > 0 && url.contains('?') ==> with_rq(url, token) == url
            + "&rq="@ + token,
        !has_rq(url) && token.len() > 0 && !url.contains('?') ==> with_rq(url, token) == url
            + "?rq="@ + token,
{
}

/// A link is a decoy exactly where one of the names stands in it, whatever the
/// case, or one of the domains in its host.
pub proof fn law_bait(
    source: Seq<char>,
    domains: Seq<Seq<char>>,
    filenames: Seq<Seq<char>>,
)
    ensures
        forall|i: int|
            0 <= i < filenames.len() && contains(lower(source), lower(#[trigger] filenames[i]))
                ==> is_bait(source, domains, filenames),
        url_parse(source) matches Ok(parts) ==> (parts.host matches Some(host) ==> forall|i: int|
            0 <= i < domains.len() && contains(host, #[trigger] domains[i]) ==> is_bait(
                source,
                domains,
                filenames,
            )),
        is_bait(source, domains, filenames) ==> {
            ||| exists|i: int|
                0 <= i < filenames.len() && contains(lower(source), lower(#[trigger] filenames[i]))
            ||| url_parse(source) is Ok && url_parse(source)->Ok_0.host is Some && exists|i: int|
                0 <= i < domains.len() && contains(
                    url_parse(source)->Ok_0.host->0,
                    #[trigger] domains[i],
                )
        },
{
}

/// The known decoys: three file names, and three hosts.
pub proof fn law_known_decoys(source: Seq<char>)
    ensures
        contains(lower(source), lower("BigBuckBunny"@)) ==> decoy(source),
        contains(lower(source), lower("Big_Buck_Bunny_1080_10s_5MB"@)) ==> decoy(source),
        contains(lower(source), lower("bbb.mp4"@)) ==> decoy(source),
        url_parse(source) matches Ok(parts) ==> (parts.host matches Some(host) ==> {
            &&& contains(host, "test-videos.co.uk"@) ==> decoy(source)
            &&& contains(host, "sample-videos.com"@) ==> decoy(source)
            &&& contains(host, "commondatastorage.googleapis.com"@) ==> decoy(source)
        }),
        decoy(source) ==> {
            ||| contains(lower(source), lower("BigBuckBunny"@))
            ||| contains(lower(source), lower("Big_Buck_Bunny_1080_10s_5MB"@))
            ||| contains(lower(source), lower("bbb.mp4"@))
            ||| url_parse(source) is Ok && url_parse(source)->Ok_0.host is Some && ({
                let host = url_parse(source)->Ok_0.host->0;
                ||| contains(host, "test-videos.co.uk"@)
                ||| contains(host, "sample-videos.com"@)
                ||| contains(host, "commondatastorage.googleapis.com"@)
            })
        },
{
    let names = crate::media::decoy_filenames();
    let hosts = crate::media::decoy_domains();
    assert(names[0] == "BigBuckBunny"@);
    assert(names[1] == "Big_Buck_Bunny_1080_10s_5MB"@);
    assert(names[2] == "bbb.mp4"@);
    assert(hosts[0] == "test-videos.co.uk"@);
    assert(hosts[1] == "sample-videos.com"@);
    assert(hosts[2] == "commondatastorage.googleapis.com"@);
}

/// The link of a match list: the first one of the wanted sort that is no
/// decoy.
pub proof fn law_first_genuine(found: Seq<Option<Seq<char>>>, playlist: bool, k: int, url: Seq<char>)
    requires
        0 <= k < found.len(),
        found[k] == Some(url),
        !decoy(url),
        contains(lower(url), ".m3u8"@) == playlist,
        forall|j: int|
            0 <= j < k ==> ((#[trigger] found[j]) matches Some(u) ==> decoy(u) || contains(
                lower(u),
                ".m3u8"@,
            ) != playlist),
    ensures
        crate::media::first_genuine(found, playlist, 0) == Some(url),
{
    lemma_skipped_links(found, playlist, 0, k);
}

proof fn lemma_skipped_links(found: Seq<Option<Seq<char>>>, playlist: bool, i: int, k: int)
    requires
        0 <= i <= k < found.len(),
        forall|j: int|
            0 <= j < k ==> ((#[trigger] found[j]) matches Some(u) ==> decoy(u) || contains(
                lower(u),
                ".m3u8"@,
            ) != playlist),
    ensures
        crate::media::first_genuine(found, playlist, i) == crate::media::first_genuine(
            found,
            playlist,
            k,
        ),
    decreases k - i,
{
    if i < k {
        lemma_skipped_links(found, playlist, i + 1, k);
    }
}

/// In free text an MP4 link comes before a playlist, and each is searched for
/// by its ending.
pub proof fn law_text_search(text: Seq<char>)
    ensures
        mp4_in_text(text) is Some ==> link_in_text(text) == mp4_in_text(text),
        mp4_in_text(text) is None ==> link_in_text(text) == m3u8_in_text(text),
        every_capture(r#"(https?://[^\s"']+\.mp4[^\s"']*)"#@, text) matches Some(found)
            ==> mp4_in_text(text) == crate::media::first_genuine(found, false, 0),
        every_capture(r#"(https?://[^\s"']+\.m3u8[^\s"']*)"#@, text) matches Some(found)
            ==> m3u8_in_text(text) == crate::media::first_genuine(found, true, 0),
{
}

/// What a page assigns to `source` is taken, unless it is a decoy or a
/// playlist; then the first genuine MP4 link is.
pub proof fn law_open_link(html: Seq<char>, url: Seq<char>)
    requires
        regex_valid(r#"var\s+source\s*=\s*['"]([^'"]+)['"]"#@),
        first_capture(r#"var\s+source\s*=\s*['"]([^'"]+)['"]"#@, html) == Some(Some(url)),
    ensures
        url.len() > 0 && !decoy(url) && !contains(lower(url), ".m3u8"@) ==> open_link(html) == Some(
            url,
        ),
        url.len() == 0 || decoy(url) || contains(lower(url), ".m3u8"@) ==> (every_capture(
            r#"(https?://[^"'<>]+\.mp4[^"'<>\s]*)"#@,
            html,
        ) matches Some(found) ==> open_link(html) == crate::media::first_genuine(found, false, 0)),
{
}

// ---------------------------------------------------------------------------
// Rules
// ---------------------------------------------------------------------------

/// A rule on a member takes the link of its value, with the request token
/// exactly where the rule asks for that and the document has one.
pub proof fn law_member_rule(
    tree: Tree,
    text: Seq<char>,
    key: String,
    priority: u32,
    append: bool,
    prefer_mp4: bool,
    domains: Seq<Seq<char>>,
    filenames: Seq<Seq<char>>,
)
    ensures
        ({
            let rule = UrlExtractionRule::JsonKey {
                key,
                priority,
                append_rq_token: append,
                prefer_mp4,
            };
            let out = rule_link(tree, text, rule, domains, filenames);
            let token = filled_member(tree, "request"@);
            match member(tree, key@) {
                None => out is None,
                Some(value) => match value_link(value, prefer_mp4, domains, filenames) {
                    None => out is None,
                    Some(url) => {
                        &&& !append || token is None ==> out == Some(url)
                        &&& append && token is Some && (contains(url, "&rq="@) || contains(
                            url,
                            "?rq="@,
                        )) ==> out == Some(url)
                        &&& append && token is Some && !(contains(url, "&rq="@) || contains(
                            url,
                            "?rq="@,
                        )) ==> out == Some(url + "&rq="@ + token->0) || out == Some(
                            url + "?rq="@ + token->0,
                        )
                    },
                },
            }
        }),
{
}

/// A rule with a regex takes group 1 of the first match in the text, unless
/// that is a decoy.
pub proof fn law_regex_rule(
    tree: Tree,
    text: Seq<char>,
    pattern: String,
    priority: u32,
    domains: Seq<Seq<char>>,
    filenames: Seq<Seq<char>>,
)
    ensures
        ({
            let out = rule_link(
                tree,
                text,
                UrlExtractionRule::RegexUrl { pattern, priority },
                domains,
                filenames,
            );
            match first_capture(pattern@, text) {
                Some(Some(url)) => out == if is_bait(url, domains, filenames) {
                    None
                } else {
                    Some(url)
                },
                _ => out is None,
            }
        }),
{
}

/// The number by which a rule is ordered.
pub open spec fn rule_number(rule: UrlExtractionRule) -> u32 {
    match rule {
        UrlExtractionRule::JsonKey { priority, .. } => priority,
        UrlExtractionRule::RegexUrl { priority, .. } => priority,
    }
}

/// What is extracted from an object is the link of a rule that finds one; no
/// rule with a lower number, nor an earlier one with the same number, finds
/// one. Nothing is extracted exactly where no rule finds a link.
pub proof fn law_first_rule_wins(
    tree: Tree,
    text: Seq<char>,
    rules: Seq<UrlExtractionRule>,
    domains: Seq<Seq<char>>,
    filenames: Seq<Seq<char>>,
)
    requires
        tree is Object,
    ensures
        match picked(tree, text, rules, domains, filenames) {
            Some(url) => exists|k: int|
                0 <= k < rules.len() && rule_link(
                    tree,
                    text,
                    #[trigger] rules[k],
                    domains,
                    filenames,
                ) == Some(url) && forall|j: int|
                    0 <= j < rules.len() && rule_link(
                        tree,
                        text,
                        #[trigger] rules[j],
                        domains,
                        filenames,
                    ) is Some ==> rule_number(rules[k]) < rule_number(rules[j]) || (rule_number(
                        rules[k],
                    ) == rule_number(rules[j]) && k <= j),
            None => forall|j: int|
                0 <= j < rules.len() ==> rule_link(
                    tree,
                    text,
                    #[trigger] rules[j],
                    domains,
                    filenames,
                ) is None,
        },
{
    lemma_winning_rule_first(tree, text, rules, rules.len() as int, domains, filenames);
    if let Some(k) = winning_rule(tree, text, rules, rules.len() as int, domains, filenames) {
        assert(rule_link(tree, text, rules[k], domains, filenames) is Some);
    }
}

/// Only objects have links to extract.
pub proof fn law_objects_only(
    tree: Tree,
    text: Seq<char>,
    rules: Seq<UrlExtractionRule>,
    domains: Seq<Seq<char>>,
    filenames: Seq<Seq<char>>,
)
    requires
        !(tree is Object),
    ensures
        picked(tree, text, rules, domains, filenames) is None,
{
}

// ---------------------------------------------------------------------------
// Content and pipelines
// ---------------------------------------------------------------------------

/// Of found texts, the first that is not blank is taken, trimmed.
pub proof fn law_first_filled(found: Seq<Seq<char>>, k: int)
    requires
        0 <= k < found.len(),
        trim(found[k]).len() > 0,
        forall|j: int| 0 <= j < k ==> trim(#[trigger] found[j]).len() == 0,
    ensures
        first_filled(found, 0) == Some(trim(found[k])),
{
    lemma_blanks_skipped(found, 0, k);
}

proof fn lemma_blanks_skipped(found: Seq<Seq<char>>, i: int, k: int)
    requires
        0 <= i <= k < found.len(),
        forall|j: int| 0 <= j < k ==> trim(#[trigger] found[j]).len() == 0,
    ensures
        first_filled(found, i) == first_filled(found, k),
    decreases k - i,
{
    if i < k {
        lemma_blanks_skipped(found, i + 1, k);
    }
}

/// Of found attributes, the first that is there and not empty is taken.
pub proof fn law_first_present(found: Seq<Option<Seq<char>>>, k: int, value: Seq<char>)
    requires
        0 <= k < found.len(),
        found[k] == Some(value),
        value.len() > 0,
        forall|j: int| 0 <= j < k ==> ((#[trigger] found[j]) matches Some(v) ==> v.len() == 0),
    ensures
        first_present(found, 0) == Some(value),
{
    lemma_gaps_skipped(found, 0, k);
}

proof fn lemma_gaps_skipped(found: Seq<Option<Seq<char>>>, i: int, k: int)
    requires
        0 <= i <= k < found.len(),
        forall|j: int| 0 <= j < k ==> ((#[trigger] found[j]) matches Some(v) ==> v.len() == 0),
    ensures
        first_present(found, i) == first_present(found, k),
    decreases k - i,
{
    if i < k {
        lemma_gaps_skipped(found, i + 1, k);
    }
}

/// Where the obfuscated data of a page is looked for, by the extraction.
pub proof fn law_content_found(html: Seq<char>, extraction: ContentExtraction)
    ensures
        extraction is ScriptJsonTag ==> (element_texts(
            html,
            "script[type='application/json']"@,
        ) matches Some(found) ==> content(html, extraction) == first_filled(found, 0)),
        extraction matches ContentExtraction::JsVariable { pattern } ==> content(html, extraction)
            == captured(pattern@, html),
        extraction matches ContentExtraction::RegexMatch { pattern } ==> content(html, extraction)
            == captured(pattern@, html),
        extraction matches ContentExtraction::CssSelector { selector, attribute } ==> {
            &&& attribute is None ==> (element_texts(html, selector@) matches Some(found)
                ==> content(html, extraction) == first_filled(found, 0))
            &&& attribute matches Some(name) ==> (element_attributes(
                html,
                selector@,
                name@,
            ) matches Some(found) ==> content(html, extraction) == first_present(found, 0))
        },
        extraction matches ContentExtraction::JsRedirectThen { inner } ==> content(html, extraction)
            == content(html, *inner),
{
}

/// Where every regex compiles, a pipeline is built with all steps, in order.
pub proof fn law_pipeline_complete(defs: Seq<StepDef>)
    requires
        forall|i: int| 0 <= i < defs.len() ==> buildable((#[trigger] defs[i])@),
    ensures
        built(defs).len() == defs.len(),
        forall|i: int| 0 <= i < defs.len() ==> built(defs)[i] == (#[trigger] defs[i])@,
    decreases defs.len(),
{
    if defs.len() > 0 {
        law_pipeline_complete(defs.drop_last());
        assert(buildable(defs[defs.len() - 1]@));
        assert forall|i: int| 0 <= i < defs.len() implies built(defs)[i] == (
        #[trigger] defs[i])@ by {
            if i < defs.len() - 1 {
                assert(built(defs)[i] == built(defs.drop_last())[i]);
                assert(defs.drop_last()[i] == defs[i]);
            }
        }
    }
}

/// A step that cannot be built is left out, and only a regex that does not
/// compile cannot be.
pub proof fn law_broken_regex_left_out(defs: Seq<StepDef>, def: StepDef)
    ensures
        def matches StepDef::RegexExtract { pattern } ==> (!regex_valid(pattern@) ==> built(
            defs.push(def),
        ) == built(defs)),
        !(def is RegexExtract) ==> built(defs.push(def)) == built(defs).push(def@),
{
    assert(defs.push(def).drop_last() =~= defs);
}

/// A link without a limit counts as the slowest where limits are compared.
pub proof fn law_speed_compared(url: Seq<char>)
    ensures
        cdn_speed(url) matches Some(n) ==> speed_or_zero(url) == n,
        cdn_speed(url) is None ==> speed_or_zero(url) == 0,
{
}

/// A page that assigns nothing to `source` is searched for an MP4 link; where
/// the assignment has no value, nothing is found.
pub proof fn law_open_link_without_source(html: Seq<char>)
    requires
        regex_valid(r#"var\s+source\s*=\s*['"]([^'"]+)['"]"#@),
    ensures
        first_capture(r#"var\s+source\s*=\s*['"]([^'"]+)['"]"#@, html) is None ==> (every_capture(
            r#"(https?://[^"'<>]+\.mp4[^"'<>\s]*)"#@,
            html,
        ) matches Some(found) ==> open_link(html) == crate::media::first_genuine(found, false, 0)),
        first_capture(r#"var\s+source\s*=\s*['"]([^'"]+)['"]"#@, html) == Some(
            None::<Seq<char>>,
        ) ==> open_link(html) is None,
{
}

} // verus!
