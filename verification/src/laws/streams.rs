//! Laws of stream selection: the video and audio streams of a YouTube watch
//! page, and which video an address names.

use crate::classifier::UrlCategory;
use crate::json::{json_parse, member, number_member, text_member, Tree};
use crate::links::{url_parse, UrlModel};
use crate::resolver::{ResolveFault, ResolveModel};
use crate::text::{
    before_first, contains, decimal_value, ends_with, find, lemma_find_from, lower, occurs_at,
    parse_unsigned, starts_with,
};
use crate::youtube::{
    best_stream, best_url, first_item, lemma_best_stream, object_end, player_response, query_value,
    response_result, video_id, video_id_of, watch_page_result, without_slashes, StreamKind,
};
use vstd::prelude::*;

verus! {

// ---------------------------------------------------------------------------
// Streams
// ---------------------------------------------------------------------------

/// Whether a word stands in the MIME type of a stream.
pub open spec fn typed(stream: Tree, word: Seq<char>) -> bool {
    text_member(stream, "mimeType"@) matches Some(mime) && contains(mime, word)
}

/// Whether a stream is MP4 audio.
pub open spec fn is_mp4_audio(stream: Tree) -> bool {
    typed(stream, "audio"@) && typed(stream, "mp4"@)
}

/// Whether a stream is H.264, and not known to be higher than 1080 lines.
pub open spec fn is_h264(stream: Tree) -> bool {
    &&& typed(stream, "avc1"@)
    &&& number_member(stream, "height"@) matches Some(h) ==> h <= 1080
}

/// A number of a stream, zero where it states none.
pub open spec fn stated(stream: Tree, key: Seq<char>) -> u64 {
    match number_member(stream, key) {
        Some(n) => n,
        None => 0,
    }
}

/// Whether a list has a stream of MP4 audio under an address, and none with a
/// higher bitrate.
pub open spec fn best_audio_at(streams: Seq<Tree>, k: int, address: Seq<char>) -> bool {
    &&& 0 <= k < streams.len()
    &&& text_member(streams[k], "url"@) == Some(address)
    &&& is_mp4_audio(streams[k])
    &&& forall|j: int|
        0 <= j < streams.len() && is_mp4_audio(#[trigger] streams[j]) ==> stated(
            streams[j],
            "bitrate"@,
        ) <= stated(streams[k], "bitrate"@)
}

/// Whether a list has a stream of H.264 under an address, of video only where
/// that is asked for, and none that is higher.
pub open spec fn best_video_at(
    streams: Seq<Tree>,
    k: int,
    video_only: bool,
    address: Seq<char>,
) -> bool {
    &&& 0 <= k < streams.len()
    &&& text_member(streams[k], "url"@) == Some(address)
    &&& is_h264(streams[k])
    &&& video_only ==> typed(streams[k], "video"@)
    &&& forall|j: int|
        0 <= j < streams.len() && is_h264(#[trigger] streams[j]) && (video_only ==> typed(
            streams[j],
            "video"@,
        )) ==> stated(streams[j], "height"@) <= stated(streams[k], "height"@)
}

/// The streams that a response lists under a name.
pub open spec fn listed(response: Tree, key: Seq<char>) -> Option<Seq<Tree>> {
    match member(response, "streamingData"@) {
        Some(data) => match member(data, key) {
            Some(Tree::List(items)) => Some(items),
            _ => None,
        },
        None => None,
    }
}

proof fn lemma_best_audio(streams: Seq<Tree>)
    ensures
        match best_stream(StreamKind::Audio, streams, streams.len() as int) {
            Some(k) => text_member(streams[k], "url"@) matches Some(address) ==> best_audio_at(
                streams,
                k,
                address,
            ),
            None => forall|j: int| 0 <= j < streams.len() ==> !is_mp4_audio(#[trigger] streams[j]),
        },
        best_stream(StreamKind::Audio, streams, streams.len() as int) matches Some(k) ==> 0 <= k
            < streams.len() && is_mp4_audio(streams[k]),
{
    lemma_best_stream(StreamKind::Audio, streams, streams.len() as int);
}

proof fn lemma_best_video(streams: Seq<Tree>, kind: StreamKind, video_only: bool)
    requires
        kind == if video_only {
            StreamKind::Video
        } else {
            StreamKind::Combined
        },
    ensures
        match best_stream(kind, streams, streams.len() as int) {
            Some(k) => {
                &&& 0 <= k < streams.len()
                &&& is_h264(streams[k])
                &&& text_member(streams[k], "url"@) matches Some(address) ==> best_video_at(
                    streams,
                    k,
                    video_only,
                    address,
                )
            },
            None => forall|j: int|
                0 <= j < streams.len() && is_h264(#[trigger] streams[j]) && (video_only ==> typed(streams[j], "video"@)) ==> false,
        },
        best_url(kind, Some(streams)) matches Some(address) ==> exists|k: int| #[trigger]
            best_video_at(streams, k, video_only, address),
{
    let n = streams.len() as int;
    lemma_best_stream(kind, streams, n);
    if let Some(k) = best_stream(kind, streams, n) {
        if let Some(address) = text_member(streams[k], "url"@) {
            assert forall|j: int|
                0 <= j < n && is_h264(#[trigger] streams[j]) && (video_only ==> typed(streams[j], "video"@)) implies stated(streams[j], "height"@)
                <= stated(streams[k], "height"@) by {
                assert(crate::youtube::playable(kind, streams[j]));
            }
            assert(best_video_at(streams, k, video_only, address));
        }
    } else {
        assert forall|j: int|
            0 <= j < n && is_h264(#[trigger] streams[j]) && (video_only ==> typed(
                streams[j],
                "video"@,
            )) implies false by {
            assert(crate::youtube::playable(kind, streams[j]));
        }
    }
}

/// Whenever a result has an audio address, it is that of a listed MP4 audio
/// stream, and no such stream has a higher bitrate.
pub proof fn law_audio_is_mp4(url: Seq<char>, used_tor: bool, response: Tree)
    ensures
        response_result(url, used_tor, response) matches Ok(model) ==> (model.audio_url matches Some(
            address,
        ) ==> listed(response, "adaptiveFormats"@) is Some && exists|k: int| #[trigger]
            best_audio_at(listed(response, "adaptiveFormats"@)->0, k, address)),
{
    if let Some(list) = listed(response, "adaptiveFormats"@) {
        lemma_best_audio(list);
    }
}

/// Where MP4 audio is listed, every such stream has an address, and no
/// combined stream can be played, a result comes with audio.
pub proof fn law_audio_is_found(url: Seq<char>, used_tor: bool, response: Tree, j: int)
    requires
        listed(response, "formats"@) matches Some(combined) ==> forall|i: int|
            0 <= i < combined.len() ==> !is_h264(#[trigger] combined[i]),
        listed(response, "adaptiveFormats"@) is Some,
        0 <= j < listed(response, "adaptiveFormats"@)->0.len(),
        is_mp4_audio(listed(response, "adaptiveFormats"@)->0[j]),
        forall|i: int|
            0 <= i < listed(response, "adaptiveFormats"@)->0.len() && is_mp4_audio(
                #[trigger] listed(response, "adaptiveFormats"@)->0[i],
            ) ==> text_member(listed(response, "adaptiveFormats"@)->0[i], "url"@) is Some,
    ensures
        response_result(url, used_tor, response) matches Ok(model) ==> model.audio_url is Some,
{
    let list = listed(response, "adaptiveFormats"@)->0;
    lemma_best_audio(list);
    if let Some(combined) = listed(response, "formats"@) {
        lemma_best_video(combined, StreamKind::Combined, false);
    }
    assert(is_mp4_audio(list[j]));
}

/// What is played is the highest H.264 stream of up to 1080 lines: a combined
/// one without separate audio, else a video-only one.
pub proof fn law_video_is_h264(url: Seq<char>, used_tor: bool, response: Tree)
    ensures
        response_result(url, used_tor, response) matches Ok(model) ==> {
            ||| model.audio_url is None && listed(response, "formats"@) is Some && exists|k: int|
                #[trigger]
                best_video_at(listed(response, "formats"@)->0, k, false, model.direct_url)
            ||| listed(response, "adaptiveFormats"@) is Some && exists|k: int| #[trigger]
                best_video_at(listed(response, "adaptiveFormats"@)->0, k, true, model.direct_url)
        },
{
    if let Some(list) = listed(response, "formats"@) {
        lemma_best_video(list, StreamKind::Combined, false);
    }
    if let Some(list) = listed(response, "adaptiveFormats"@) {
        lemma_best_video(list, StreamKind::Video, true);
    }
    if let Ok(model) = response_result(url, used_tor, response) {
        if let Some(list) = listed(response, "formats"@) {
            if let Some(address) = best_url(StreamKind::Combined, Some(list)) {
                let k = choose|k: int| #[trigger] best_video_at(list, k, false, address);
                assert(model.direct_url == address);
                assert(best_video_at(list, k, false, model.direct_url));
            }
        }
        if let Some(list) = listed(response, "adaptiveFormats"@) {
            if let Some(address) = best_url(StreamKind::Video, Some(list)) {
                if model.direct_url == address {
                    let k = choose|k: int| #[trigger] best_video_at(list, k, true, address);
                    assert(best_video_at(list, k, true, model.direct_url));
                }
            }
        }
    }
}

/// Where a combined stream can be played and all that can have an address, a
/// combined one is played, without separate audio.
pub proof fn law_combined_first(url: Seq<char>, used_tor: bool, response: Tree, j: int)
    requires
        listed(response, "formats"@) is Some,
        0 <= j < listed(response, "formats"@)->0.len(),
        is_h264(listed(response, "formats"@)->0[j]),
        forall|i: int|
            0 <= i < listed(response, "formats"@)->0.len() && is_h264(
                #[trigger] listed(response, "formats"@)->0[i],
            ) ==> text_member(listed(response, "formats"@)->0[i], "url"@) is Some,
    ensures
        response_result(url, used_tor, response) matches Ok(model) && model.audio_url is None
            && exists|k: int| #[trigger]
            best_video_at(listed(response, "formats"@)->0, k, false, model.direct_url),
{
    let list = listed(response, "formats"@)->0;
    lemma_best_video(list, StreamKind::Combined, false);
    assert(is_h264(list[j]));
    if let Ok(model) = response_result(url, used_tor, response) {
        if let Some(list) = listed(response, "formats"@) {
            if let Some(address) = best_url(StreamKind::Combined, Some(list)) {
                let k = choose|k: int| #[trigger] best_video_at(list, k, false, address);
                assert(model.direct_url == address);
                assert(best_video_at(list, k, false, model.direct_url));
            }
        }
    }
}

/// Where only video-only H.264 streams can be played, and all of them have an
/// address, the highest one is played.
pub proof fn law_adaptive_second(url: Seq<char>, used_tor: bool, response: Tree, j: int)
    requires
        listed(response, "formats"@) matches Some(combined) ==> forall|i: int|
            0 <= i < combined.len() ==> !is_h264(#[trigger] combined[i]),
        listed(response, "adaptiveFormats"@) is Some,
        0 <= j < listed(response, "adaptiveFormats"@)->0.len(),
        is_h264(listed(response, "adaptiveFormats"@)->0[j]),
        typed(listed(response, "adaptiveFormats"@)->0[j], "video"@),
        forall|i: int|
            0 <= i < listed(response, "adaptiveFormats"@)->0.len() && is_h264(
                #[trigger] listed(response, "adaptiveFormats"@)->0[i],
            ) ==> text_member(listed(response, "adaptiveFormats"@)->0[i], "url"@) is Some,
    ensures
        response_result(url, used_tor, response) matches Ok(model) && exists|k: int| #[trigger]
            best_video_at(listed(response, "adaptiveFormats"@)->0, k, true, model.direct_url),
{
    let list = listed(response, "adaptiveFormats"@)->0;
    lemma_best_video(list, StreamKind::Video, true);
    assert(is_h264(list[j]));
    if let Some(combined) = listed(response, "formats"@) {
        lemma_best_video(combined, StreamKind::Combined, false);
    }
    if let Ok(model) = response_result(url, used_tor, response) {
        if let Some(list) = listed(response, "formats"@) {
            if let Some(address) = best_url(StreamKind::Combined, Some(list)) {
                let k = choose|k: int| #[trigger] best_video_at(list, k, false, address);
                assert(model.direct_url == address);
                assert(best_video_at(list, k, false, model.direct_url));
            }
        }
        if let Some(list) = listed(response, "adaptiveFormats"@) {
            if let Some(address) = best_url(StreamKind::Video, Some(list)) {
                if model.direct_url == address {
                    let k = choose|k: int| #[trigger] best_video_at(list, k, true, address);
                    assert(best_video_at(list, k, true, model.direct_url));
                }
            }
        }
    }
}

/// Without any stream that can be played there is no result, and the error
/// says what was missing.
pub proof fn law_nothing_playable(url: Seq<char>, used_tor: bool, response: Tree)
    requires
        listed(response, "formats"@) matches Some(list) ==> forall|i: int|
            0 <= i < list.len() ==> !is_h264(#[trigger] list[i]),
        listed(response, "adaptiveFormats"@) matches Some(list) ==> forall|i: int|
            0 <= i < list.len() ==> !is_h264(#[trigger] list[i]),
    ensures
        response_result(url, used_tor, response) is Err,
        member(response, "streamingData"@) is None ==> response_result(url, used_tor, response)
            == Err::<ResolveModel, ResolveFault>(
            ResolveFault::NoMediaFound(
                "streamingData not found in ytInitialPlayerResponse (video may be DRM-protected or region-blocked)"@,
            ),
        ),
        member(response, "streamingData"@) is Some && listed(response, "adaptiveFormats"@) is None
            ==> response_result(url, used_tor, response) == Err::<ResolveModel, ResolveFault>(
            ResolveFault::NoMediaFound("no adaptiveFormats found in streamingData"@),
        ),
{
    if let Some(list) = listed(response, "formats"@) {
        lemma_best_video(list, StreamKind::Combined, false);
    }
    if let Some(list) = listed(response, "adaptiveFormats"@) {
        lemma_best_video(list, StreamKind::Video, true);
    }
}

/// What a result says besides its addresses is what the response says: title,
/// duration in milliseconds, first thumbnail; and it is reported under the
/// submitted address.
pub proof fn law_details_from_response(url: Seq<char>, used_tor: bool, response: Tree, details: Tree)
    requires
        member(response, "videoDetails"@) == Some(details),
    ensures
        response_result(url, used_tor, response) matches Ok(model) ==> {
            &&& model.source_url == url
            &&& model.used_tor == used_tor
            &&& model.category == UrlCategory::WebPage
            &&& model.resolver_type == "custom"@
            &&& model.vcodec == Some("avc1"@)
            &&& model.acodec == Some("mp4a"@)
            &&& model.title == text_member(details, "title"@)
            &&& text_member(details, "lengthSeconds"@) is None ==> model.duration is None
            &&& text_member(details, "lengthSeconds"@) matches Some(text) ==> (
            crate::text::all_digits(text) && text.len() > 0 && decimal_value(text) * 1000
                <= u64::MAX ==> model.duration == Some((decimal_value(text) * 1000) as u64))
            &&& member(details, "thumbnail"@) matches Some(thumbnail) ==> (member(
                thumbnail,
                "thumbnails"@,
            ) matches Some(Tree::List(list)) ==> (list.len() > 0 ==> model.thumbnail == text_member(
                list[0],
                "url"@,
            )))
        },
{
    if let Some(text) = text_member(details, "lengthSeconds"@) {
        if crate::text::all_digits(text) && text.len() > 0 {
            assert(crate::text::is_digit(text[0]));
        }
    }
}

/// A result gives the height of the stream that is played, and the width that
/// goes with it at 16:9; its MIME type is the stream's.
pub proof fn law_size_from_stream(url: Seq<char>, used_tor: bool, response: Tree)
    ensures
        response_result(url, used_tor, response) matches Ok(model) ==> {
            &&& model.height matches Some(h) ==> h <= 1080 && model.width == Some(
                (h * 16 / 9) as u32,
            )
            &&& model.height is None ==> model.width is None
            &&& model.mime_type matches Some(mime) && contains(mime, "avc1"@)
        },
{
    if let Some(list) = listed(response, "formats"@) {
        lemma_best_video(list, StreamKind::Combined, false);
    }
    if let Some(list) = listed(response, "adaptiveFormats"@) {
        lemma_best_video(list, StreamKind::Video, true);
    }
}

/// A page is read by the object behind the first assignment to the player
/// response.
pub proof fn law_page_read(url: Seq<char>, used_tor: bool, html: Seq<char>)
    ensures
        player_response(html) is None ==> watch_page_result(url, used_tor, html) is Err,
        player_response(html) matches Some(text) ==> {
            &&& json_parse(text) matches Ok(response) ==> watch_page_result(url, used_tor, html)
                == response_result(url, used_tor, response)
            &&& json_parse(text) is Err ==> watch_page_result(url, used_tor, html) is Err
            &&& find(html, "var ytInitialPlayerResponse = "@) matches Some(k) && occurs_at(
                html,
                text,
                k + "var ytInitialPlayerResponse = "@.len(),
            )
        },
{
    let marker = "var ytInitialPlayerResponse = "@;
    lemma_find_from(html, marker, 0);
    if let Some(k) = find(html, marker) {
        let start = k + marker.len();
        if start < html.len() && html[start] == '{' {
            lemma_end_in_text(html, start + 1, 1, false, false);
            if let Some(end) = object_end(html, start, 0, false, false) {
                assert(html.subrange(start, start + (end - start)) =~= html.subrange(start, end));
            }
        }
    }
}

proof fn lemma_end_in_text(s: Seq<char>, i: int, depth: int, quoted: bool, escaped: bool)
    requires
        0 <= i,
    ensures
        object_end(s, i, depth, quoted, escaped) matches Some(end) ==> i < end <= s.len(),
    decreases s.len() - i,
{
    if i < s.len() {
        lemma_end_in_text(s, i + 1, depth, quoted, false);
        lemma_end_in_text(s, i + 1, depth, quoted, true);
        lemma_end_in_text(s, i + 1, depth, !quoted, false);
        lemma_end_in_text(s, i + 1, depth + 1, quoted, false);
        lemma_end_in_text(s, i + 1, depth - 1, quoted, false);
    }
}

/// How many of the first `n` characters are `c`.
pub open spec fn occurrences(s: Seq<char>, c: char, n: int) -> int
    decreases n,
{
    if n <= 0 {
        0
    } else {
        occurrences(s, c, n - 1) + if s[n - 1] == c {
            1int
        } else {
            0int
        }
    }
}

/// An object without strings ends where its braces balance, and not before.
pub proof fn law_object_balanced(s: Seq<char>, start: int, end: int)
    requires
        0 <= start < end <= s.len(),
        s[start] == '{',
        forall|j: int| start <= j < end ==> (#[trigger] s[j]) != '"',
        object_end(s, start, 0, false, false) == Some(end),
    ensures
        occurrences(s, '{', end) - occurrences(s, '{', start) == occurrences(s, '}', end)
            - occurrences(s, '}', start),
        forall|n: int|
            start < n < end ==> #[trigger] occurrences(s, '{', n) - occurrences(s, '{', start)
                > occurrences(s, '}', n) - occurrences(s, '}', start),
{
    lemma_end_in_text(s, start + 1, 1, false, false);
    assert(occurrences(s, '{', start + 1) == occurrences(s, '{', start) + 1);
    assert(occurrences(s, '}', start + 1) == occurrences(s, '}', start));
    lemma_balance(s, start, start + 1, 1, end);
}

proof fn lemma_balance(s: Seq<char>, start: int, i: int, depth: int, end: int)
    requires
        0 <= start < i < end <= s.len(),
        depth >= 1,
        forall|j: int| start <= j < end ==> (#[trigger] s[j]) != '"',
        object_end(s, i, depth, false, false) == Some(end),
        depth == occurrences(s, '{', i) - occurrences(s, '{', start) - (occurrences(s, '}', i)
            - occurrences(s, '}', start)),
    ensures
        occurrences(s, '{', end) - occurrences(s, '{', start) == occurrences(s, '}', end)
            - occurrences(s, '}', start),
        forall|n: int|
            i <= n < end ==> #[trigger] occurrences(s, '{', n) - occurrences(s, '{', start)
                > occurrences(s, '}', n) - occurrences(s, '}', start),
    decreases end - i,
{
    assert(s[i] != '"');
    assert(occurrences(s, '{', i + 1) == occurrences(s, '{', i) + if s[i] == '{' {
        1int
    } else {
        0int
    });
    assert(occurrences(s, '}', i + 1) == occurrences(s, '}', i) + if s[i] == '}' {
        1int
    } else {
        0int
    });
    let next = if s[i] == '{' {
        depth + 1
    } else if s[i] == '}' {
        depth - 1
    } else {
        depth
    };
    if s[i] == '}' && depth == 1 {
        assert(end == i + 1);
    } else {
        lemma_end_in_text(s, i + 1, next, false, false);
        lemma_balance(s, start, i + 1, next, end);
    }
}

/// Inside a string braces count for nothing: reading goes on behind its
/// closing quote with the same number of open objects.
pub proof fn law_strings_skipped(s: Seq<char>, i: int, close: int, depth: int)
    requires
        0 <= i <= close < s.len(),
        s[close] == '"',
        forall|j: int| i <= j < close ==> (#[trigger] s[j]) != '"' && s[j] != '\\',
    ensures
        object_end(s, i, depth, true, false) == object_end(s, close + 1, depth, false, false),
    decreases close - i,
{
    if i < close {
        assert(s[i] != '"');
        law_strings_skipped(s, i + 1, close, depth);
    }
}

/// In a string, a backslash takes the character behind it along.
pub proof fn law_escapes_skipped(s: Seq<char>, i: int, depth: int)
    requires
        0 <= i,
        i + 1 < s.len(),
        s[i] == '\\',
    ensures
        object_end(s, i, depth, true, false) == object_end(s, i + 2, depth, true, false),
{
    reveal_with_fuel(object_end, 3);
}

// ---------------------------------------------------------------------------
// Addresses
// ---------------------------------------------------------------------------

/// Whether a host is one of YouTube's pages.
pub open spec fn on_youtube(host: Seq<char>) -> bool {
    ends_with(lower(host), "youtube.com"@) || ends_with(lower(host), "youtube-nocookie.com"@)
}

proof fn lemma_short_host(host: Seq<char>)
    requires
        lower(host) == "youtu.be"@,
    ensures
        !on_youtube(host),
{
    reveal_strlit("youtu.be");
    reveal_strlit("youtube.com");
    reveal_strlit("youtube-nocookie.com");
}

/// A filled `v` parameter of a page names the video, whatever the path.
pub proof fn law_watch_address(url: UrlModel, host: Seq<char>, id: Seq<char>)
    requires
        url.host == Some(host),
        on_youtube(host),
        query_value(url.query, "v"@, 0) == Some(id),
        id.len() > 0,
    ensures
        video_id_of(url) == Some(id),
{
    if lower(host) == "youtu.be"@ {
        lemma_short_host(host);
    }
}

/// The first parameter of a name gives its value.
pub proof fn law_parameter_first(query: Seq<(Seq<char>, Seq<char>)>, key: Seq<char>, k: int)
    requires
        0 <= k < query.len(),
        query[k].0 == key,
        forall|j: int| 0 <= j < k ==> (#[trigger] query[j]).0 != key,
    ensures
        query_value(query, key, 0) == Some(query[k].1),
{
    lemma_parameters_skipped(query, key, 0, k);
}

proof fn lemma_parameters_skipped(query: Seq<(Seq<char>, Seq<char>)>, key: Seq<char>, i: int, k: int)
    requires
        0 <= i <= k < query.len(),
        forall|j: int| 0 <= j < k ==> (#[trigger] query[j]).0 != key,
    ensures
        query_value(query, key, i) == query_value(query, key, k),
    decreases k - i,
{
    if i < k {
        lemma_parameters_skipped(query, key, i + 1, k);
    }
}

/// Without it, the part of the path behind `/embed/` or `/shorts/` does, up to
/// the next slash.
pub proof fn law_embedded_address(url: UrlModel, host: Seq<char>, rest: Seq<char>)
    requires
        url.host == Some(host),
        on_youtube(host),
        query_value(url.query, "v"@, 0) is None,
        url.path == "/embed/"@ + rest || url.path == "/shorts/"@ + rest,
    ensures
        before_first(rest, '/').len() > 0 ==> video_id_of(url) == Some(before_first(rest, '/')),
        before_first(rest, '/').len() == 0 ==> video_id_of(url) is None,
{
    if lower(host) == "youtu.be"@ {
        lemma_short_host(host);
    }
    reveal_strlit("/embed/");
    reveal_strlit("/shorts/");
    assert("/embed/"@[1] == 'e');
    assert("/shorts/"@[1] == 's');
    if url.path == "/embed/"@ + rest {
        assert(url.path.subrange(0, 7) =~= "/embed/"@);
        assert(starts_with(url.path, "/embed/"@));
        assert(url.path.skip(7) =~= rest);
        assert(url.path[1] == 'e');
        if starts_with(url.path, "/shorts/"@) {
            assert(url.path.subrange(0, 8)[1] == 's');
        }
    } else {
        assert(url.path.subrange(0, 8) =~= "/shorts/"@);
        assert(starts_with(url.path, "/shorts/"@));
        assert(url.path.skip(8) =~= rest);
        assert(url.path[1] == 's');
        if starts_with(url.path, "/embed/"@) {
            assert(url.path.subrange(0, 7)[1] == 'e');
        }
    }
}

/// On the short host the path names the video.
pub proof fn law_short_address(url: UrlModel, host: Seq<char>, id: Seq<char>)
    requires
        url.host == Some(host),
        lower(host) == "youtu.be"@,
        url.path == "/"@ + id,
        id.len() > 0,
        id[0] != '/',
    ensures
        video_id_of(url) == Some(id),
{
    reveal_strlit("/");
    assert(url.path[0] == '/');
    assert(url.path.skip(1) =~= id);
    reveal_with_fuel(without_slashes, 3);
}

/// Other hosts, and what is no address, name no video.
pub proof fn law_other_addresses(text: Seq<char>)
    ensures
        url_parse(text) is Err ==> video_id(text) is None,
        url_parse(text) matches Ok(url) ==> {
            &&& video_id(text) == video_id_of(url)
            &&& url.host is None ==> video_id(text) is None
            &&& url.host matches Some(host) ==> (lower(host) != "youtu.be"@ && !on_youtube(host)
                ==> video_id(text) is None)
        },
{
}

/// A combined stream gives its length, where it states one in digits.
pub proof fn law_length_from_stream(url: Seq<char>, used_tor: bool, response: Tree)
    ensures
        response_result(url, used_tor, response) matches Ok(model) ==> (
        model.content_length matches Some(n) ==> listed(response, "formats"@) is Some && exists|
            k: int,
        |
            0 <= k < listed(response, "formats"@)->0.len() && text_member(
                #[trigger] listed(response, "formats"@)->0[k],
                "url"@,
            ) == Some(model.direct_url) && (text_member(
                listed(response, "formats"@)->0[k],
                "contentLength"@,
            ) matches Some(text) && parse_unsigned(text, u64::MAX as nat) == Some(n as nat))),
{
    if let Some(list) = listed(response, "formats"@) {
        lemma_best_video(list, StreamKind::Combined, false);
        if let Some(k) = best_stream(StreamKind::Combined, list, list.len() as int) {
            assert(is_h264(list[k]));
        }
    }
}

/// A combined stream that states a length in digits is reported with it.
pub proof fn law_length_reported(
    url: Seq<char>,
    used_tor: bool,
    response: Tree,
    stream: Tree,
    text: Seq<char>,
)
    requires
        listed(response, "formats"@) == Some(seq![stream]),
        is_h264(stream),
        text_member(stream, "url"@) is Some,
        text_member(stream, "contentLength"@) == Some(text),
        text.len() > 0,
        crate::text::all_digits(text),
        decimal_value(text) <= u64::MAX,
    ensures
        response_result(url, used_tor, response) matches Ok(model) && model.content_length == Some(
            decimal_value(text) as u64,
        ) && model.height == (match number_member(stream, "height"@) {
            Some(h) => Some(h as u32),
            None => None,
        }) && model.mime_type == text_member(stream, "mimeType"@),
{
    let list = seq![stream];
    lemma_best_video(list, StreamKind::Combined, false);
    assert(list[0] == stream);
    assert(is_h264(list[0]));
    assert(crate::text::is_digit(text[0]));
}

/// What is said where a page cannot be read, and where it has nothing to play.
pub proof fn law_stream_errors_said(url: Seq<char>, used_tor: bool, html: Seq<char>, response: Tree)
    ensures
        player_response(html) is None ==> watch_page_result(url, used_tor, html) == Err::<
            ResolveModel,
            ResolveFault,
        >(
            ResolveFault::NoMediaFound(
                "ytInitialPlayerResponse not found in YouTube page (YouTube may have changed its page structure)"@,
            ),
        ),
        player_response(html) matches Some(text) ==> (json_parse(text) matches Err(message)
            ==> watch_page_result(url, used_tor, html) == Err::<ResolveModel, ResolveFault>(
            ResolveFault::NoMediaFound(
                "failed to parse ytInitialPlayerResponse JSON: "@ + message,
            ),
        )),
        listed(response, "adaptiveFormats"@) is Some ==> (response_result(
            url,
            used_tor,
            response,
        ) matches Err(fault) ==> fault == ResolveFault::NoMediaFound(
            "no suitable H.264 video format found in adaptiveFormats (video may be DRM-protected or use VP9/AV1 only)"@,
        )),
{
}

/// Without thumbnails there is none; a title or a duration that is missing
/// stays so.
pub proof fn law_details_missing(url: Seq<char>, used_tor: bool, response: Tree)
    ensures
        response_result(url, used_tor, response) matches Ok(model) ==> {
            &&& member(response, "videoDetails"@) is None ==> model.title is None && model.duration
                is None && model.thumbnail is None
            &&& member(response, "videoDetails"@) matches Some(details) ==> {
                &&& member(details, "thumbnail"@) is None ==> model.thumbnail is None
                &&& member(details, "thumbnail"@) matches Some(thumbnail) ==> (member(
                    thumbnail,
                    "thumbnails"@,
                ) matches Some(Tree::List(list)) ==> (list.len() == 0 ==> model.thumbnail is None))
            }
        },
{
}

/// Of streams that are rated alike, the last one is taken.
pub proof fn law_last_of_equals(kind: StreamKind, streams: Seq<Tree>, n: int)
    requires
        0 <= n <= streams.len(),
    ensures
        best_stream(kind, streams, n) matches Some(k) ==> 0 <= k < n && forall|j: int|
            k < j < n && crate::youtube::playable(kind, #[trigger] streams[j])
                ==> crate::youtube::rating(kind, streams[j]) < crate::youtube::rating(
                kind,
                streams[k],
            ),
    decreases n,
{
    if n > 0 {
        law_last_of_equals(kind, streams, n - 1);
        lemma_best_stream(kind, streams, n - 1);
    }
}

/// Leading slashes do not count, however many there are.
pub proof fn law_slashes_dropped(s: Seq<char>)
    ensures
        without_slashes("/"@ + s) == without_slashes(s),
        s.len() > 0 && s[0] != '/' ==> without_slashes(s) == s,
        without_slashes(Seq::empty()) == Seq::<char>::empty(),
{
    reveal_strlit("/");
    assert(("/"@ + s)[0] == '/');
    assert(("/"@ + s).skip(1) =~= s);
}

/// Thumbnails may be numbered members instead of a list.
pub proof fn law_first_thumbnail(tree: Tree)
    ensures
        tree is Object ==> first_item(tree) == member(tree, "0"@),
        tree matches Tree::List(items) ==> (items.len() > 0 ==> first_item(tree) == Some(items[0])),
        tree matches Tree::List(items) ==> (items.len() == 0 ==> first_item(tree) is None),
        !(tree is Object) && !(tree is List) ==> first_item(tree) is None,
{
}

} // verus!
