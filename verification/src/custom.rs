//! Which hosts the built-in resolvers for Voe, DoodStream and YouTube serve.

use crate::text::{
    chars_of, ends_with, host_in_domains, in_domains, is_lower, lower, one_of, str_ends_with, strs,
    substring, to_lowercase,
};
use vstd::prelude::*;

verus! {

// ---------------------------------------------------------------------------
// Domains
// ---------------------------------------------------------------------------

/// The canonical Voe domain and its unblock proxies.
pub open spec fn voe_domains() -> Seq<Seq<char>> {
    seq![
        "voe.sx"@,
        "voe-unblock.com"@,
        "voeunblock.com"@,
        "voeunbl0ck.com"@,
        "voe-unblk.com"@,
        "voeunblk.com"@,
        "voeunblock2.com"@,
    ]
}

/// Names of well-known sites, which are never Voe front ends.
pub open spec fn well_known_names() -> Seq<Seq<char>> {
    seq![
        "google"@,
        "youtube"@,
        "facebook"@,
        "twitter"@,
        "instagram"@,
        "amazon"@,
        "microsoft"@,
        "apple"@,
        "netflix"@,
        "reddit"@,
        "twitch"@,
        "vimeo"@,
        "dailymotion"@,
        "tiktok"@,
        "pinterest"@,
        "tumblr"@,
        "linkedin"@,
        "whatsapp"@,
        "telegram"@,
        "discord"@,
    ]
}

pub open spec fn is_vowel(c: char) -> bool {
    c == 'a' || c == 'e' || c == 'i' || c == 'o' || c == 'u'
}

/// How many of the first `n` characters are vowels.
pub open spec fn vowel_count(s: Seq<char>, n: int) -> nat
    decreases n,
{
    if n <= 0 {
        0
    } else {
        vowel_count(s, n - 1) + if is_vowel(s[n - 1]) {
            1nat
        } else {
            0nat
        }
    }
}

/// Whether a name reads like run-together English words: 12 to 40 letters
/// `a`..`z`, at least a fifth of them vowels, and no well-known site.
pub open spec fn reads_like_words(name: Seq<char>) -> bool {
    &&& 12 <= name.len() <= 40
    &&& forall|i: int| 0 <= i < name.len() ==> is_lower(#[trigger] name[i])
    &&& !well_known_names().contains(name)
    &&& 5 * vowel_count(name, name.len() as int) >= name.len()
}

/// Whether a host is taken for a Voe site: a listed domain, or a `.com` whose
/// name reads like run-together words.
pub open spec fn is_voe(host: Seq<char>) -> bool {
    let h = lower(host);
    ||| in_domains(h, voe_domains())
    ||| ends_with(h, ".com"@) && reads_like_words(h.take(h.len() - 4))
}

/// Known DoodStream front-end domains.
pub open spec fn doodstream_domains() -> Seq<Seq<char>> {
    seq![
        "playmogo.com"@,
        "doodstream.com"@,
        "dood.to"@,
        "dood.watch"@,
        "dood.la"@,
        "dood.ws"@,
        "doodstream.co"@,
        "dood.yt"@,
        "dood.re"@,
        "dood.pm"@,
        "dood.wf"@,
        "dood.cx"@,
    ]
}

/// Domains of YouTube.
pub open spec fn youtube_domains() -> Seq<Seq<char>> {
    seq![
        "youtube.com"@,
        "www.youtube.com"@,
        "m.youtube.com"@,
        "youtu.be"@,
        "youtube-nocookie.com"@,
        "www.youtube-nocookie.com"@,
    ]
}

/// Check if a domain name (without TLD) is a well-known site.
pub fn is_well_known_domain(name: &str) -> (r: bool)
    ensures
        r == well_known_names().contains(name@),
{
    let known: [&str; 20] = [
        "google",
        "youtube",
        "facebook",
        "twitter",
        "instagram",
        "amazon",
        "microsoft",
        "apple",
        "netflix",
        "reddit",
        "twitch",
        "vimeo",
        "dailymotion",
        "tiktok",
        "pinterest",
        "tumblr",
        "linkedin",
        "whatsapp",
        "telegram",
        "discord",
    ];
    assert(strs(known@) =~= well_known_names());
    one_of(name, &known)
}

/// Whether a name reads like run-together English words.
fn looks_like_words(name: &str) -> (r: bool)
    ensures
        r == reads_like_words(name@),
{
    let v = chars_of(name);
    if v.len() < 12 || v.len() > 40 {
        return false;
    }
    let mut vowels: usize = 0;
    let mut i: usize = 0;
    while i < v.len()
        invariant
            i <= v@.len() <= 40,
            v@ == name@,
            vowels <= i,
            vowels == vowel_count(name@, i as int),
            forall|k: int| 0 <= k < i ==> is_lower(#[trigger] name@[k]),
        decreases v.len() - i,
    {
        let c = v[i];
        if !('a' <= c && c <= 'z') {
            assert(!is_lower(name@[i as int]));
            return false;
        }
        if c == 'a' || c == 'e' || c == 'i' || c == 'o' || c == 'u' {
            vowels = vowels + 1;
        }
        i = i + 1;
    }
    !is_well_known_domain(name) && 5 * vowels >= v.len()
}

/// Check if a hostname is likely a Voe domain.
pub fn is_voe_domain(host: &str) -> (r: bool)
    ensures
        r == is_voe(host@),
{
    let host_lower = to_lowercase(host);
    let domains: [&str; 7] = [
        "voe.sx",
        "voe-unblock.com",
        "voeunblock.com",
        "voeunbl0ck.com",
        "voe-unblk.com",
        "voeunblk.com",
        "voeunblock2.com",
    ];
    assert(strs(domains@) =~= voe_domains());
    if host_in_domains(host_lower.as_str(), &domains) {
        return true;
    }
    if str_ends_with(host_lower.as_str(), ".com") {
        proof {
            reveal_strlit(".com");
        }
        let v = chars_of(host_lower.as_str());
        let name = substring(&v, 0, v.len() - 4);
        assert(name@ =~= lower(host@).take(lower(host@).len() - 4));
        looks_like_words(name.as_str())
    } else {
        false
    }
}

/// Check if a hostname should be handled by the DoodStream resolver.
pub fn is_doodstream_domain(host: &str) -> (r: bool)
    ensures
        r == in_domains(lower(host@), doodstream_domains()),
{
    let host_lower = to_lowercase(host);
    let domains: [&str; 12] = [
        "playmogo.com",
        "doodstream.com",
        "dood.to",
        "dood.watch",
        "dood.la",
        "dood.ws",
        "doodstream.co",
        "dood.yt",
        "dood.re",
        "dood.pm",
        "dood.wf",
        "dood.cx",
    ];
    assert(strs(domains@) =~= doodstream_domains());
    host_in_domains(host_lower.as_str(), &domains)
}

/// Check if a hostname should be handled by the YouTube resolver.
pub fn is_youtube_domain(host: &str) -> (r: bool)
    ensures
        r == in_domains(lower(host@), youtube_domains()),
{
    let host_lower = to_lowercase(host);
    let domains: [&str; 6] = [
        "youtube.com",
        "www.youtube.com",
        "m.youtube.com",
        "youtu.be",
        "youtube-nocookie.com",
        "www.youtube-nocookie.com",
    ];
    assert(strs(domains@) =~= youtube_domains());
    host_in_domains(host_lower.as_str(), &domains)
}

} // verus!
