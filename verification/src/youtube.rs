//! The YouTube resolver: reading the player response out of a watch page and
//! choosing the streams to play.

use crate::classifier::UrlCategory;
use crate::json::{json_parse, lookup, member, number_member, parse_json, text_member, Json, Tree};
use crate::links::{parse_url, url_parse, UrlModel, UrlParts};
use crate::resolver::{ResolveError, ResolveFault, ResolveModel, ResolveResult};
use crate::text::{
    before_first, chars_of, contains, ends_with, find, find_chars, join2, lower, opt_text, owned,
    parse_number, parse_unsigned, same_text, str_before_first, str_contains, str_ends_with,
    str_strip_prefix, strip_prefix, substring, text_pairs, to_lowercase,
};
use vstd::prelude::*;

verus! {

// ---------------------------------------------------------------------------
// The video ID
// ---------------------------------------------------------------------------

/// `s` without leading slashes.
pub open spec fn without_slashes(s: Seq<char>) -> Seq<char>
    decreases s.len(),
{
    if s.len() > 0 && s[0] == '/' {
        without_slashes(s.skip(1))
    } else {
        s
    }
}

/// A text that is not empty.
pub open spec fn filled(s: Seq<char>) -> Option<Seq<char>> {
    if s.len() > 0 {
        Some(s)
    } else {
        None
    }
}

/// The value of the first query pair named `key`.
pub open spec fn query_value(query: Seq<(Seq<char>, Seq<char>)>, key: Seq<char>, i: int) -> Option<
    Seq<char>,
>
    decreases query.len() - i,
{
    if i < 0 || i >= query.len() {
        None
    } else if query[i].0 == key {
        Some(query[i].1)
    } else {
        query_value(query, key, i + 1)
    }
}

/// The path segment behind a prefix, where it is not empty.
pub open spec fn segment_behind(path: Seq<char>, prefix: Seq<char>) -> Option<Seq<char>> {
    match strip_prefix(path, prefix) {
        Some(rest) => filled(before_first(rest, '/')),
        None => None,
    }
}

/// The `v` parameter, where it is not empty.
pub open spec fn watch_id(url: UrlModel) -> Option<Seq<char>> {
    match query_value(url.query, "v"@, 0) {
        Some(v) => filled(v),
        None => None,
    }
}

/// The video that a YouTube address names.
pub open spec fn video_id_of(url: UrlModel) -> Option<Seq<char>> {
    match url.host {
        None => None,
        Some(raw_host) => {
            let host = lower(raw_host);
            if host == "youtu.be"@ {
                filled(without_slashes(url.path))
            } else if ends_with(host, "youtube.com"@) || ends_with(host, "youtube-nocookie.com"@) {
                if watch_id(url) is Some {
                    watch_id(url)
                } else if segment_behind(url.path, "/embed/"@) is Some {
                    segment_behind(url.path, "/embed/"@)
                } else {
                    segment_behind(url.path, "/shorts/"@)
                }
            } else {
                None
            }
        },
    }
}

/// The video that an address names.
pub open spec fn video_id(url: Seq<char>) -> Option<Seq<char>> {
    match url_parse(url) {
        Ok(parts) => video_id_of(parts),
        Err(_) => None,
    }
}

fn strip_slashes(s: &str) -> (r: String)
    ensures
        r@ == without_slashes(s@),
{
    let v = chars_of(s);
    let mut i: usize = 0;
    assert(s@.skip(0) =~= s@);
    while i < v.len() && v[i] == '/'
        invariant
            i <= v@.len(),
            v@ == s@,
            without_slashes(s@) == without_slashes(s@.skip(i as int)),
        decreases v.len() - i,
    {
        assert(s@.skip(i as int).skip(1) =~= s@.skip(i + 1));
        i = i + 1;
    }
    let r = substring(&v, i, v.len());
    assert(r@ =~= s@.skip(i as int));
    r
}

fn keep_filled(s: String) -> (r: Option<String>)
    ensures
        opt_text(r) == filled(s@),
{
    if s.as_str().is_empty() {
        None
    } else {
        Some(s)
    }
}

fn find_query(query: &Vec<(String, String)>, key: &str) -> (r: Option<String>)
    ensures
        opt_text(r) == query_value(text_pairs(query@), key@, 0),
{
    let mut i: usize = 0;
    while i < query.len()
        invariant
            i <= query@.len(),
            query_value(text_pairs(query@), key@, 0) == query_value(
                text_pairs(query@),
                key@,
                i as int,
            ),
        decreases query.len() - i,
    {
        assert(text_pairs(query@)[i as int] == (query@[i as int].0@, query@[i as int].1@));
        if same_text(query[i].0.as_str(), key) {
            return Some(owned(query[i].1.as_str()));
        }
        i = i + 1;
    }
    None
}

fn read_segment_behind(path: &str, prefix: &str) -> (r: Option<String>)
    ensures
        opt_text(r) == segment_behind(path@, prefix@),
{
    match str_strip_prefix(path, prefix) {
        Some(rest) => keep_filled(str_before_first(rest.as_str(), '/')),
        None => None,
    }
}

/// The video that a parsed YouTube address names.
pub fn video_id_of_parts(url: &UrlParts) -> (r: Option<String>)
    ensures
        opt_text(r) == video_id_of(url@),
{
    match &url.host {
        None => None,
        Some(raw_host) => {
            let host_text = to_lowercase(raw_host.as_str());
            let host = host_text.as_str();
            if same_text(host, "youtu.be") {
                return keep_filled(strip_slashes(url.path.as_str()));
            }
            if str_ends_with(host, "youtube.com") || str_ends_with(host, "youtube-nocookie.com") {
                match find_query(&url.query, "v") {
                    Some(v) => {
                        let id = keep_filled(v);
                        if id.is_some() {
                            return id;
                        }
                    },
                    None => {},
                }
                let embedded = read_segment_behind(url.path.as_str(), "/embed/");
                if embedded.is_some() {
                    return embedded;
                }
                return read_segment_behind(url.path.as_str(), "/shorts/");
            }
            None
        },
    }
}

/// Extract the YouTube video ID from an address.
pub fn extract_youtube_video_id(url: &str) -> (r: Option<String>)
    ensures
        opt_text(r) == video_id(url@),
{
    match parse_url(url) {
        Ok(parts) => video_id_of_parts(&parts),
        Err(_) => None,
    }
}

/// The watch page to fetch for an address.
pub fn youtube_watch_url(url: &str) -> (r: Result<String, ResolveError>)
    ensures
        match video_id(url@) {
            Some(id) => r matches Ok(address) && address@ == "https://www.youtube.com/watch?v="@
                + id,
            None => r matches Err(e) && e@ == ResolveFault::NoMediaFound(
                "could not extract YouTube video ID from "@ + url@,
            ),
        },
{
    match extract_youtube_video_id(url) {
        Some(id) => Ok(join2("https://www.youtube.com/watch?v=", id.as_str())),
        None => Err(
            ResolveError::NoMediaFound(join2("could not extract YouTube video ID from ", url)),
        ),
    }
}

// ---------------------------------------------------------------------------
// The player response
// ---------------------------------------------------------------------------

/// The index just behind the brace that closes the outermost object, reading
/// `s` from `i` on: `depth` objects are open, `quoted` and `escaped` tell
/// whether `i` lies inside a string and behind a backslash in one. Braces in
/// strings do not count.
pub open spec fn object_end(
    s: Seq<char>,
    i: int,
    depth: int,
    quoted: bool,
    escaped: bool,
) -> Option<int>
    decreases s.len() - i,
{
    if i < 0 || i >= s.len() {
        None
    } else if escaped {
        object_end(s, i + 1, depth, quoted, false)
    } else if s[i] == '\\' && quoted {
        object_end(s, i + 1, depth, quoted, true)
    } else if s[i] == '"' {
        object_end(s, i + 1, depth, !quoted, false)
    } else if quoted {
        object_end(s, i + 1, depth, quoted, false)
    } else if s[i] == '{' {
        object_end(s, i + 1, depth + 1, quoted, false)
    } else if s[i] == '}' {
        if depth == 1 {
            Some(i + 1)
        } else {
            object_end(s, i + 1, depth - 1, quoted, false)
        }
    } else {
        object_end(s, i + 1, depth, quoted, false)
    }
}

/// The object that a page assigns to the player response.
pub open spec fn player_response(html: Seq<char>) -> Option<Seq<char>> {
    let marker = "var ytInitialPlayerResponse = "@;
    match find(html, marker) {
        Some(k) => {
            let start = k + marker.len();
            if start < html.len() && html[start] == '{' {
                match object_end(html, start, 0, false, false) {
                    Some(end) => Some(html.subrange(start, end)),
                    None => None,
                }
            } else {
                None
            }
        },
        None => None,
    }
}

/// Extract the player response from a watch page.
pub fn extract_player_response(html: &str) -> (r: Option<String>)
    ensures
        opt_text(r) == player_response(html@),
{
    let v = chars_of(html);
    let marker = chars_of("var ytInitialPlayerResponse = ");
    let total: usize = v.len();
    let start: usize = match find_chars(&v, &marker, 0) {
        Some(k) => k + marker.len(),
        None => {
            return None;
        },
    };
    if start >= total || v[start] != '{' {
        return None;
    }
    let mut depth: usize = 0;
    let mut quoted: bool = false;
    let mut escaped: bool = false;
    let mut i: usize = start;
    while i < total
        invariant
            start <= i <= total,
            total == v@.len(),
            v@ == html@,
            start < total,
            v@[start as int] == '{',
            depth <= i - start,
            i == start ==> depth == 0 && !quoted && !escaped,
            i > start ==> depth >= 1,
            player_response(html@) == match object_end(html@, start as int, 0, false, false) {
                Some(end) => Some(html@.subrange(start as int, end)),
                None => None,
            },
            object_end(html@, start as int, 0, false, false) == object_end(
                html@,
                i as int,
                depth as int,
                quoted,
                escaped,
            ),
        decreases total - i,
    {
        let c = v[i];
        if escaped {
            escaped = false;
        } else if c == '\\' && quoted {
            escaped = true;
        } else if c == '"' {
            quoted = !quoted;
        } else if quoted {
        } else if c == '{' {
            depth = depth + 1;
        } else if c == '}' {
            if depth == 1 {
                return Some(substring(&v, start, i + 1));
            }
            depth = depth - 1;
        }
        i = i + 1;
    }
    None
}

// ---------------------------------------------------------------------------
// Streams
// ---------------------------------------------------------------------------

/// The kinds of streams that a player response lists.
pub enum StreamKind {
    /// Video and audio in one.
    Combined,
    /// Video only.
    Video,
    /// Audio only.
    Audio,
}

/// Whether the MIME type of a stream holds a word.
pub open spec fn mime_has(stream: Tree, word: Seq<char>) -> bool {
    match text_member(stream, "mimeType"@) {
        Some(mime) => contains(mime, word),
        None => false,
    }
}

/// Whether a stream is at most 1080 lines high, as far as its height is known.
pub open spec fn fits_height(stream: Tree) -> bool {
    match number_member(stream, "height"@) {
        Some(h) => h <= 1080,
        None => true,
    }
}

/// Whether a stream can be played: H.264 up to 1080 lines, or MP4 audio.
pub open spec fn playable(kind: StreamKind, stream: Tree) -> bool {
    match kind {
        StreamKind::Combined => mime_has(stream, "avc1"@) && fits_height(stream),
        StreamKind::Video => mime_has(stream, "avc1"@) && mime_has(stream, "video"@)
            && fits_height(stream),
        StreamKind::Audio => mime_has(stream, "audio"@) && mime_has(stream, "mp4"@),
    }
}

/// What streams are rated by: height, or bitrate for audio.
pub open spec fn rating(kind: StreamKind, stream: Tree) -> u64 {
    let key = match kind {
        StreamKind::Audio => "bitrate"@,
        _ => "height"@,
    };
    match number_member(stream, key) {
        Some(n) => n,
        None => 0,
    }
}

/// The index, below `n`, of the last playable stream with the highest rating.
pub open spec fn best_stream(kind: StreamKind, streams: Seq<Tree>, n: int) -> Option<int>
    decreases n,
{
    if n <= 0 {
        None
    } else {
        let before = best_stream(kind, streams, n - 1);
        if playable(kind, streams[n - 1]) && (before is None || rating(kind, streams[n - 1])
            >= rating(kind, streams[before->0])) {
            Some(n - 1)
        } else {
            before
        }
    }
}

/// The best stream of a kind.
pub open spec fn best_of(kind: StreamKind, streams: Seq<Tree>) -> Option<Tree> {
    match best_stream(kind, streams, streams.len() as int) {
        Some(k) => Some(streams[k]),
        None => None,
    }
}

/// The list that a member holds.
pub open spec fn list_member(tree: Tree, key: Seq<char>) -> Option<Seq<Tree>> {
    match member(tree, key) {
        Some(Tree::List(items)) => Some(items),
        _ => None,
    }
}

/// The first item of a list; the member `0` of an object.
pub open spec fn first_item(tree: Tree) -> Option<Tree> {
    match tree {
        Tree::List(items) => if items.len() > 0 {
            Some(items[0])
        } else {
            None
        },
        Tree::Object(fields) => lookup(fields, "0"@),
        _ => None,
    }
}

/// The title of the video.
pub open spec fn response_title(response: Tree) -> Option<Seq<char>> {
    match member(response, "videoDetails"@) {
        Some(details) => text_member(details, "title"@),
        None => None,
    }
}

/// The duration in milliseconds, where it is stated and fits a `u64`.
pub open spec fn response_duration(response: Tree) -> Option<u64> {
    match member(response, "videoDetails"@) {
        Some(details) => match text_member(details, "lengthSeconds"@) {
            Some(text) => match parse_unsigned(text, u64::MAX as nat) {
                Some(secs) => if secs * 1000 <= u64::MAX {
                    Some((secs * 1000) as u64)
                } else {
                    None
                },
                None => None,
            },
            None => None,
        },
        None => None,
    }
}

/// The address of the first thumbnail.
pub open spec fn response_thumbnail(response: Tree) -> Option<Seq<char>> {
    match member(response, "videoDetails"@) {
        Some(details) => match member(details, "thumbnail"@) {
            Some(thumbnail) => match member(thumbnail, "thumbnails"@) {
                Some(list) => match first_item(list) {
                    Some(first) => text_member(first, "url"@),
                    None => None,
                },
                None => None,
            },
            None => None,
        },
        None => None,
    }
}

/// The height of a stream of at most 1080 lines.
pub open spec fn stream_height(stream: Tree) -> Option<u32> {
    match number_member(stream, "height"@) {
        Some(h) => Some(h as u32),
        None => None,
    }
}

/// The width that goes with a height at 16:9.
pub open spec fn wide(height: Option<u32>) -> Option<u32> {
    match height {
        Some(h) => Some((h * 16 / 9) as u32),
        None => None,
    }
}

/// The content length that a stream states.
pub open spec fn stream_length(stream: Tree) -> Option<u64> {
    match text_member(stream, "contentLength"@) {
        Some(text) => match parse_unsigned(text, u64::MAX as nat) {
            Some(n) => Some(n as u64),
            None => None,
        },
        None => None,
    }
}

/// The result for a video stream with its audio stream, if that is separate.
pub open spec fn stream_result(
    url: Seq<char>,
    used_tor: bool,
    response: Tree,
    stream: Tree,
    direct_url: Seq<char>,
    audio_url: Option<Seq<char>>,
    content_length: Option<u64>,
) -> ResolveModel {
    ResolveModel {
        source_url: url,
        direct_url,
        audio_url,
        category: UrlCategory::WebPage,
        mime_type: text_member(stream, "mimeType"@),
        content_length,
        used_tor,
        title: response_title(response),
        duration: response_duration(response),
        thumbnail: response_thumbnail(response),
        vcodec: Some("avc1"@),
        acodec: Some("mp4a"@),
        width: wide(stream_height(stream)),
        height: stream_height(stream),
        subtitle_tracks: Seq::empty(),
        cookies: Seq::empty(),
        resolver_type: "custom"@,
    }
}

/// The address of the best stream of a kind, where the list has one.
pub open spec fn best_url(kind: StreamKind, streams: Option<Seq<Tree>>) -> Option<Seq<char>> {
    match streams {
        Some(list) => match best_of(kind, list) {
            Some(stream) => text_member(stream, "url"@),
            None => None,
        },
        None => None,
    }
}

/// What a player response comes to: the best combined stream, else the best
/// video stream with the best audio stream.
pub open spec fn response_result(url: Seq<char>, used_tor: bool, response: Tree) -> Result<
    ResolveModel,
    ResolveFault,
> {
    match member(response, "streamingData"@) {
        None => Err(
            ResolveFault::NoMediaFound(
                "streamingData not found in ytInitialPlayerResponse (video may be DRM-protected or region-blocked)"@,
            ),
        ),
        Some(data) => {
            let combined = list_member(data, "formats"@);
            let adaptive = list_member(data, "adaptiveFormats"@);
            if best_url(StreamKind::Combined, combined) is Some {
                let stream = best_of(StreamKind::Combined, combined->0)->0;
                Ok(
                    stream_result(
                        url,
                        used_tor,
                        response,
                        stream,
                        best_url(StreamKind::Combined, combined)->0,
                        None,
                        stream_length(stream),
                    ),
                )
            } else if adaptive is None {
                Err(
                    ResolveFault::NoMediaFound("no adaptiveFormats found in streamingData"@),
                )
            } else {
                match best_url(StreamKind::Video, adaptive) {
                    Some(direct) => Ok(
                        stream_result(
                            url,
                            used_tor,
                            response,
                            best_of(StreamKind::Video, adaptive->0)->0,
                            direct,
                            best_url(StreamKind::Audio, adaptive),
                            None,
                        ),
                    ),
                    None => Err(
                        ResolveFault::NoMediaFound(
                            "no suitable H.264 video format found in adaptiveFormats (video may be DRM-protected or use VP9/AV1 only)"@,
                        ),
                    ),
                }
            }
        },
    }
}

/// The items of a JSON list.
pub open spec fn trees(items: Seq<Json>) -> Seq<Tree> {
    Seq::new(items.len(), |i: int| items[i]@)
}

fn mime_holds(stream: &Json, word: &str) -> (r: bool)
    ensures
        r == mime_has(stream@, word@),
{
    match stream.get_text("mimeType") {
        Some(mime) => str_contains(mime.as_str(), word),
        None => false,
    }
}

fn height_fits(stream: &Json) -> (r: bool)
    ensures
        r == fits_height(stream@),
{
    match stream.get_number("height") {
        Some(h) => h <= 1080,
        None => true,
    }
}

fn is_playable(kind: &StreamKind, stream: &Json) -> (r: bool)
    ensures
        r == playable(*kind, stream@),
{
    match kind {
        StreamKind::Combined => mime_holds(stream, "avc1") && height_fits(stream),
        StreamKind::Video => mime_holds(stream, "avc1") && mime_holds(stream, "video")
            && height_fits(stream),
        StreamKind::Audio => mime_holds(stream, "audio") && mime_holds(stream, "mp4"),
    }
}

fn rate(kind: &StreamKind, stream: &Json) -> (r: u64)
    ensures
        r == rating(*kind, stream@),
{
    let n = match kind {
        StreamKind::Audio => stream.get_number("bitrate"),
        _ => stream.get_number("height"),
    };
    match n {
        Some(n) => n,
        None => 0,
    }
}

/// The best stream of a kind: the last one with the highest rating.
pub fn choose_stream<'a>(kind: StreamKind, streams: &'a Vec<Json>) -> (r: Option<&'a Json>)
    ensures
        match r {
            Some(stream) => best_of(kind, trees(streams@)) == Some(stream@),
            None => best_of(kind, trees(streams@)) is None,
        },
{
    let ghost all = trees(streams@);
    let mut best: Option<usize> = None;
    let mut i: usize = 0;
    while i < streams.len()
        invariant
            i <= streams@.len(),
            all == trees(streams@),
            match best {
                Some(k) => k < i && best_stream(kind, all, i as int) == Some(k as int),
                None => best_stream(kind, all, i as int) is None,
            },
        decreases streams.len() - i,
    {
        assert(all[i as int] == streams@[i as int]@);
        if is_playable(&kind, &streams[i]) {
            let better: bool = match best {
                Some(k) => {
                    assert(all[k as int] == streams@[k as int]@);
                    rate(&kind, &streams[i]) >= rate(&kind, &streams[k])
                },
                None => true,
            };
            if better {
                best = Some(i);
            }
        }
        i = i + 1;
    }
    match best {
        Some(k) => {
            assert(all[k as int] == streams@[k as int]@);
            Some(&streams[k])
        },
        None => None,
    }
}

fn get_list<'a>(document: &'a Json, key: &str) -> (r: Option<&'a Vec<Json>>)
    ensures
        match r {
            Some(items) => list_member(document@, key@) == Some(trees(items@)),
            None => list_member(document@, key@) is None,
        },
{
    match document.get(key) {
        Some(Json::List(items)) => {
            assert(list_member(document@, key@)->0 =~= trees(items@));
            Some(items)
        },
        _ => None,
    }
}

fn read_title(response: &Json) -> (r: Option<String>)
    ensures
        opt_text(r) == response_title(response@),
{
    match response.get("videoDetails") {
        Some(details) => details.get_text("title"),
        None => None,
    }
}

fn read_duration(response: &Json) -> (r: Option<u64>)
    ensures
        r == response_duration(response@),
{
    match response.get("videoDetails") {
        Some(details) => match details.get_text("lengthSeconds") {
            Some(text) => match parse_number(text.as_str(), u64::MAX) {
                Some(secs) => secs.checked_mul(1000),
                None => None,
            },
            None => None,
        },
        None => None,
    }
}

fn read_thumbnail(response: &Json) -> (r: Option<String>)
    ensures
        opt_text(r) == response_thumbnail(response@),
{
    let details = match response.get("videoDetails") {
        Some(v) => v,
        None => {
            return None;
        },
    };
    let thumbnail = match details.get("thumbnail") {
        Some(v) => v,
        None => {
            return None;
        },
    };
    let list = match thumbnail.get("thumbnails") {
        Some(v) => v,
        None => {
            return None;
        },
    };
    match list {
        Json::List(items) => {
            if items.len() > 0 {
                assert(list@->List_0[0] == items@[0]@);
                items[0].get_text("url")
            } else {
                None
            }
        },
        Json::Object(_) => match list.get("0") {
            Some(first) => first.get_text("url"),
            None => None,
        },
        _ => None,
    }
}

fn read_length(stream: &Json) -> (r: Option<u64>)
    ensures
        r == stream_length(stream@),
{
    match stream.get_text("contentLength") {
        Some(text) => parse_number(text.as_str(), u64::MAX),
        None => None,
    }
}

fn make_result(
    url: &str,
    used_tor: bool,
    response: &Json,
    stream: &Json,
    direct_url: String,
    audio_url: Option<String>,
    content_length: Option<u64>,
) -> (r: ResolveResult)
    requires
        fits_height(stream@),
    ensures
        r@ == stream_result(
            url@,
            used_tor,
            response@,
            stream@,
            direct_url@,
            opt_text(audio_url),
            content_length,
        ),
{
    let height: Option<u32> = match stream.get_number("height") {
        Some(h) => Some(h as u32),
        None => None,
    };
    let width: Option<u32> = match height {
        Some(h) => Some(h * 16 / 9),
        None => None,
    };
    let r = ResolveResult {
        source_url: owned(url),
        direct_url,
        audio_url,
        category: UrlCategory::WebPage,
        mime_type: stream.get_text("mimeType"),
        content_length,
        used_tor,
        title: read_title(response),
        duration: read_duration(response),
        thumbnail: read_thumbnail(response),
        vcodec: Some(owned("avc1")),
        acodec: Some(owned("mp4a")),
        width,
        height,
        subtitle_tracks: Vec::new(),
        cookies: Vec::new(),
        resolver_type: owned("custom"),
    };
    assert(r@.subtitle_tracks =~= Seq::empty());
    assert(r@.cookies =~= Seq::empty());
    r
}

/// Chooses the streams of a player response.
pub fn youtube_from_response(url: &str, used_tor: bool, response: &Json) -> (r: Result<
    ResolveResult,
    ResolveError,
>)
    ensures
        match response_result(url@, used_tor, response@) {
            Ok(model) => r matches Ok(result) && result@ == model,
            Err(fault) => r matches Err(e) && e@ == fault,
        },
{
    let data = match response.get("streamingData") {
        Some(data) => data,
        None => {
            return Err(
                ResolveError::NoMediaFound(
                    owned(
                        "streamingData not found in ytInitialPlayerResponse (video may be DRM-protected or region-blocked)",
                    ),
                ),
            );
        },
    };
    match get_list(data, "formats") {
        Some(formats) => match choose_stream(StreamKind::Combined, formats) {
            Some(stream) => match stream.get_text("url") {
                Some(direct) => {
                    proof {
                        lemma_best_stream(StreamKind::Combined, trees(formats@), formats@.len() as int);
                    }
                    let length = read_length(stream);
                    return Ok(make_result(url, used_tor, response, stream, direct, None, length));
                },
                None => {},
            },
            None => {},
        },
        None => {},
    }
    let adaptive = match get_list(data, "adaptiveFormats") {
        Some(list) => list,
        None => {
            return Err(
                ResolveError::NoMediaFound(owned("no adaptiveFormats found in streamingData")),
            );
        },
    };
    match choose_stream(StreamKind::Video, adaptive) {
        Some(stream) => match stream.get_text("url") {
            Some(direct) => {
                let audio = match choose_stream(StreamKind::Audio, adaptive) {
                    Some(sound) => sound.get_text("url"),
                    None => None,
                };
                proof {
                    lemma_best_stream(StreamKind::Video, trees(adaptive@), adaptive@.len() as int);
                }
                return Ok(make_result(url, used_tor, response, stream, direct, audio, None));
            },
            None => {},
        },
        None => {},
    }
    Err(
        ResolveError::NoMediaFound(
            owned(
                "no suitable H.264 video format found in adaptiveFormats (video may be DRM-protected or use VP9/AV1 only)",
            ),
        ),
    )
}

/// What a watch page comes to.
pub open spec fn watch_page_result(url: Seq<char>, used_tor: bool, html: Seq<char>) -> Result<
    ResolveModel,
    ResolveFault,
> {
    match player_response(html) {
        None => Err(
            ResolveFault::NoMediaFound(
                "ytInitialPlayerResponse not found in YouTube page (YouTube may have changed its page structure)"@,
            ),
        ),
        Some(text) => match json_parse(text) {
            Err(message) => Err(
                ResolveFault::NoMediaFound(
                    "failed to parse ytInitialPlayerResponse JSON: "@ + message,
                ),
            ),
            Ok(response) => response_result(url, used_tor, response),
        },
    }
}

/// Reads a watch page that was fetched for an address.
pub fn youtube_finish(url: &str, used_tor: bool, html: &str) -> (r: Result<
    ResolveResult,
    ResolveError,
>)
    ensures
        match watch_page_result(url@, used_tor, html@) {
            Ok(model) => r matches Ok(result) && result@ == model,
            Err(fault) => r matches Err(e) && e@ == fault,
        },
{
    match extract_player_response(html) {
        None => Err(
            ResolveError::NoMediaFound(
                owned(
                    "ytInitialPlayerResponse not found in YouTube page (YouTube may have changed its page structure)",
                ),
            ),
        ),
        Some(text) => match parse_json(text.as_str()) {
            Err(message) => Err(
                ResolveError::NoMediaFound(
                    join2("failed to parse ytInitialPlayerResponse JSON: ", message.as_str()),
                ),
            ),
            Ok(response) => youtube_from_response(url, used_tor, &response),
        },
    }
}

// ---------------------------------------------------------------------------
// Laws
// ---------------------------------------------------------------------------

/// The best stream is playable, and no playable one is rated higher.
pub proof fn lemma_best_stream(kind: StreamKind, streams: Seq<Tree>, n: int)
    requires
        0 <= n <= streams.len(),
    ensures
        match best_stream(kind, streams, n) {
            Some(k) => {
                &&& 0 <= k < n
                &&& playable(kind, streams[k])
                &&& forall|j: int|
                    0 <= j < n && playable(kind, #[trigger] streams[j]) ==> rating(kind, streams[j])
                        <= rating(kind, streams[k])
            },
            None => forall|j: int| 0 <= j < n ==> !playable(kind, #[trigger] streams[j]),
        },
    decreases n,
{
    if n > 0 {
        lemma_best_stream(kind, streams, n - 1);
    }
}

/// Whatever is played is at most 1080 lines high.
pub proof fn lemma_result_height(url: Seq<char>, used_tor: bool, response: Tree)
    ensures
        response_result(url, used_tor, response) matches Ok(model) ==> (model.height matches Some(
            h,
        ) ==> h <= 1080),
{
    match member(response, "streamingData"@) {
        Some(data) => {
            match list_member(data, "formats"@) {
                Some(list) => lemma_best_stream(StreamKind::Combined, list, list.len() as int),
                None => {},
            }
            match list_member(data, "adaptiveFormats"@) {
                Some(list) => lemma_best_stream(StreamKind::Video, list, list.len() as int),
                None => {},
            }
        },
        None => {},
    }
}

/// An extracted player response begins with an opening brace and ends with a
/// closing one.
pub proof fn lemma_player_response_braced(html: Seq<char>)
    ensures
        player_response(html) matches Some(text) ==> text.len() >= 2 && text[0] == '{'
            && text.last() == '}',
{
    let marker = "var ytInitialPlayerResponse = "@;
    match find(html, marker) {
        Some(k) => {
            crate::text::lemma_find_from(html, marker, 0);
            let start = k + marker.len();
            if start < html.len() && html[start] == '{' {
                lemma_object_end(html, start + 1, 1, false, false);
            }
        },
        None => {},
    }
}

proof fn lemma_object_end(s: Seq<char>, i: int, depth: int, quoted: bool, escaped: bool)
    requires
        0 <= i,
    ensures
        object_end(s, i, depth, quoted, escaped) matches Some(end) ==> i < end <= s.len() && s[end
            - 1] == '}',
    decreases s.len() - i,
{
    if i < s.len() {
        lemma_object_end(s, i + 1, depth, quoted, false);
        lemma_object_end(s, i + 1, depth, quoted, true);
        lemma_object_end(s, i + 1, depth, !quoted, false);
        lemma_object_end(s, i + 1, depth + 1, quoted, false);
        lemma_object_end(s, i + 1, depth - 1, quoted, false);
    }
}

} // verus!
